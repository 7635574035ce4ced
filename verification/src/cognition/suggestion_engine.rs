//! Tracks conversation patterns (topics, domains, recent messages) from
//! which proactive suggestions are drawn.
use vstd::prelude::*;
use crate::text::{
    chars_of, chars_eq, split_whitespace, words, views, lowercase_chars, unicode_lowercase,
    is_alphanumeric, unicode_alphanumeric, byte_len, utf8_len, string_from, chars_eq_str,
    ws_state,
};

verus! {

/// How many recent messages are kept (one more may be held for a moment:
/// the oldest is dropped only once more than this many are held).
pub const RECENT_LIMIT: usize = 20;

/// How many characters of a message are kept as its recent intent.
pub const INTENT_CHARS: usize = 100;

/// Kinds of suggestion.
#[derive(Debug, Clone, Copy, PartialEq, Eq, Structural)]
pub enum SuggestionCategory {
    /// The user keeps asking about a topic: offer to go deeper.
    DeepDive,
    /// The user seems stuck: offer other approaches.
    Unstuck,
    /// A related topic the user may like.
    RelatedTopic,
    /// A conversation starter for a new session.
    Starter,
    /// The user often asks about a domain: offer a learning path.
    LearningPath,
    /// A follow-up on an earlier conversation.
    FollowUp,
}

/// Words that are never topics.
pub open spec fn stopwords() -> Seq<Seq<char>> {
    seq![
        "the"@, "and"@, "for"@, "are"@, "but"@, "not"@, "you"@, "all"@, "can"@, "was"@, "has"@,
        "how"@, "who"@, "what"@, "this"@, "that"@, "with"@,
    ]
}

/// The alphanumeric characters of `s`, in order.
pub open spec fn alnum_only(s: Seq<char>) -> Seq<char>
    decreases s.len(),
{
    if s.len() == 0 {
        seq![]
    } else if unicode_alphanumeric(s.last()) {
        alnum_only(s.drop_last()).push(s.last())
    } else {
        alnum_only(s.drop_last())
    }
}

/// A word lower-cased and stripped of everything but letters and digits.
pub open spec fn clean_word(w: Seq<char>) -> Seq<char> {
    alnum_only(unicode_lowercase(w))
}

/// A cleaned word counts as a topic when it is at least five bytes long and
/// no stop word.
pub open spec fn is_topic(c: Seq<char>) -> bool {
    utf8_len(c) >= 5 && !stopwords().contains(c)
}

/// The topics among the first `n` words, in order.
pub open spec fn topics_upto(ws: Seq<Seq<char>>, n: int) -> Seq<Seq<char>>
    decreases n,
{
    if n <= 0 {
        seq![]
    } else {
        let c = clean_word(ws[n - 1]);
        if is_topic(c) {
            topics_upto(ws, n - 1).push(c)
        } else {
            topics_upto(ws, n - 1)
        }
    }
}

/// The topics of a message, in order.
pub open spec fn message_topics(input: Seq<char>) -> Seq<Seq<char>> {
    topics_upto(words(input), words(input).len() as int)
}

/// The first index, from `i` on, whose key is `k`, or -1.
pub open spec fn index_of_key(m: Seq<(Seq<char>, nat)>, k: Seq<char>, i: int) -> int
    decreases m.len() - i,
{
    if i < 0 || i >= m.len() {
        -1
    } else if m[i].0 == k {
        i
    } else {
        index_of_key(m, k, i + 1)
    }
}

/// A count table with one more occurrence of `k`: its count goes up by one,
/// or it is appended with a count of one.
pub open spec fn bump(m: Seq<(Seq<char>, nat)>, k: Seq<char>) -> Seq<(Seq<char>, nat)> {
    let i = index_of_key(m, k, 0);
    if i >= 0 {
        m.update(i, (k, m[i].1 + 1))
    } else {
        m.push((k, 1))
    }
}

/// A count table with one more occurrence of each key, in order.
pub open spec fn bump_all(m: Seq<(Seq<char>, nat)>, ks: Seq<Seq<char>>) -> Seq<(Seq<char>, nat)>
    decreases ks.len(),
{
    if ks.len() == 0 {
        m
    } else {
        bump(bump_all(m, ks.drop_last()), ks.last())
    }
}

/// No key occurs twice.
pub open spec fn distinct_keys(m: Seq<(Seq<char>, nat)>) -> bool {
    forall|i: int, j: int| 0 <= i < j < m.len() ==> m[i].0 != m[j].0
}

/// The view of a count table.
pub open spec fn table_view(t: Seq<(String, usize)>) -> Seq<(Seq<char>, nat)> {
    t.map_values(|e: (String, usize)| (e.0@, e.1 as nat))
}

/// The recent-intent list after a message: the oldest entry is dropped when
/// more than the limit are held, then the message's first characters are
/// appended.
pub open spec fn next_intents(recent: Seq<Seq<char>>, input: Seq<char>) -> Seq<Seq<char>> {
    let kept = if recent.len() > RECENT_LIMIT { recent.drop_first() } else { recent };
    kept.push(if input.len() < INTENT_CHARS { input } else { input.take(INTENT_CHARS as int) })
}

proof fn lemma_index_of_key(m: Seq<(Seq<char>, nat)>, k: Seq<char>, i: int)
    requires
        0 <= i <= m.len(),
    ensures
        index_of_key(m, k, i) == -1 || (i <= index_of_key(m, k, i) < m.len() && m[index_of_key(
            m,
            k,
            i,
        )].0 == k),
        index_of_key(m, k, i) == -1 ==> forall|j: int| i <= j < m.len() ==> m[j].0 != k,
        index_of_key(m, k, i) >= 0 ==> forall|j: int| i <= j < index_of_key(m, k, i) ==> m[j].0
            != k,
    decreases m.len() - i,
{
    if i < m.len() {
        lemma_index_of_key(m, k, i + 1);
    }
}

/// One more occurrence keeps keys distinct and raises no count by more
/// than one.
pub proof fn lemma_bump(m: Seq<(Seq<char>, nat)>, k: Seq<char>, bound: nat)
    requires
        distinct_keys(m),
        forall|i: int| 0 <= i < m.len() ==> #[trigger] m[i].1 <= bound,
    ensures
        distinct_keys(bump(m, k)),
        forall|i: int| 0 <= i < bump(m, k).len() ==> #[trigger] bump(m, k)[i].1 <= bound + 1,
        index_of_key(bump(m, k), k, 0) >= 0,
{
    lemma_index_of_key(m, k, 0);
    lemma_index_of_key(bump(m, k), k, 0);
    let i = index_of_key(m, k, 0);
    if i >= 0 {
        assert(bump(m, k)[i].0 == k);
    } else {
        assert(bump(m, k)[m.len() as int].0 == k);
    }
}

/// Every occurrence of a topic raises no count by more than one, and keeps
/// keys distinct.
pub proof fn lemma_bump_all(m: Seq<(Seq<char>, nat)>, ks: Seq<Seq<char>>, bound: nat)
    requires
        distinct_keys(m),
        forall|i: int| 0 <= i < m.len() ==> #[trigger] m[i].1 <= bound,
    ensures
        distinct_keys(bump_all(m, ks)),
        forall|i: int|
            0 <= i < bump_all(m, ks).len() ==> #[trigger] bump_all(m, ks)[i].1 <= bound + ks.len(),
    decreases ks.len(),
{
    if ks.len() > 0 {
        lemma_bump_all(m, ks.drop_last(), bound);
        lemma_bump(bump_all(m, ks.drop_last()), ks.last(), (bound + ks.len() - 1) as nat);
    }
}

/// A message has no more words than characters.
pub proof fn lemma_words_len(s: Seq<char>)
    ensures
        words(s).len() <= s.len(),
        ws_state(s).0.len() + (if ws_state(s).1.len() > 0 { 1int } else { 0int }) <= s.len(),
    decreases s.len(),
{
    if s.len() > 0 {
        lemma_words_len(s.drop_last());
    }
}

proof fn lemma_topics_len(ws: Seq<Seq<char>>, n: int)
    requires
        0 <= n,
    ensures
        topics_upto(ws, n).len() <= n,
    decreases n,
{
    if n > 0 {
        lemma_topics_len(ws, n - 1);
    }
}

/// A message has no more topics than characters.
pub proof fn lemma_topics_bounded(input: Seq<char>)
    ensures
        message_topics(input).len() <= input.len(),
{
    lemma_words_len(input);
    lemma_topics_len(words(input), words(input).len() as int);
}

/// Adds one occurrence of `k` to a count table.
pub(crate) fn bump_key(t: &mut Vec<(String, usize)>, k: &[char])
    requires
        forall|i: int| 0 <= i < old(t)@.len() ==> #[trigger] old(t)@[i].1 < usize::MAX,
    ensures
        table_view(final(t)@) == bump(table_view(old(t)@), k@),
{
    let ghost m = table_view(t@);
    proof {
        lemma_index_of_key(m, k@, 0);
    }
    let mut i: usize = 0;
    while i < t.len()
        invariant
            i <= t@.len(),
            t@ == old(t)@,
            m == table_view(t@),
            forall|j: int| 0 <= j < i ==> #[trigger] m[j].0 != k@,
            forall|j: int| 0 <= j < t@.len() ==> #[trigger] t@[j].1 < usize::MAX,
        decreases t@.len() - i,
    {
        let kc = chars_of(t[i].0.as_str());
        assert(m[i as int].0 == t@[i as int].0@);
        if chars_eq(kc.as_slice(), k) {
            proof {
                lemma_index_of_key(m, k@, 0);
                if index_of_key(m, k@, 0) != i {
                    assert(m[index_of_key(m, k@, 0)].0 == k@);
                }
            }
            let c = t[i].1;
            let key = string_from(k);
            t.set(i, (key, c + 1));
            assert(table_view(t@) =~= bump(m, k@));
            return;
        }
        i = i + 1;
    }
    let key = string_from(k);
    t.push((key, 1));
    assert(table_view(t@) =~= bump(m, k@));
}

/// Whether a cleaned word is a stop word.
pub(crate) fn is_stopword(c: &[char]) -> (r: bool)
    ensures
        r == stopwords().contains(c@),
{
    let r = chars_eq_str(c, "the") || chars_eq_str(c, "and") || chars_eq_str(c, "for")
        || chars_eq_str(c, "are") || chars_eq_str(c, "but") || chars_eq_str(c, "not")
        || chars_eq_str(c, "you") || chars_eq_str(c, "all") || chars_eq_str(c, "can")
        || chars_eq_str(c, "was") || chars_eq_str(c, "has") || chars_eq_str(c, "how")
        || chars_eq_str(c, "who") || chars_eq_str(c, "what") || chars_eq_str(c, "this")
        || chars_eq_str(c, "that") || chars_eq_str(c, "with");
    proof {
        let sw = stopwords();
        if r {
            assert(sw.contains(c@)) by {
                if c@ == "the"@ { assert(sw[0] == c@); }
                else if c@ == "and"@ { assert(sw[1] == c@); }
                else if c@ == "for"@ { assert(sw[2] == c@); }
                else if c@ == "are"@ { assert(sw[3] == c@); }
                else if c@ == "but"@ { assert(sw[4] == c@); }
                else if c@ == "not"@ { assert(sw[5] == c@); }
                else if c@ == "you"@ { assert(sw[6] == c@); }
                else if c@ == "all"@ { assert(sw[7] == c@); }
                else if c@ == "can"@ { assert(sw[8] == c@); }
                else if c@ == "was"@ { assert(sw[9] == c@); }
                else if c@ == "has"@ { assert(sw[10] == c@); }
                else if c@ == "how"@ { assert(sw[11] == c@); }
                else if c@ == "who"@ { assert(sw[12] == c@); }
                else if c@ == "what"@ { assert(sw[13] == c@); }
                else if c@ == "this"@ { assert(sw[14] == c@); }
                else if c@ == "that"@ { assert(sw[15] == c@); }
                else { assert(sw[16] == c@); }
            }
        } else {
            assert(!sw.contains(c@)) by {
                if sw.contains(c@) {
                    let j = choose|j: int| 0 <= j < sw.len() && sw[j] == c@;
                    assert(0 <= j < 17);
                }
            }
        }
    }
    r
}

/// The alphanumeric characters of `s`.
fn keep_alnum(s: &[char]) -> (r: Vec<char>)
    ensures
        r@ == alnum_only(s@),
{
    let mut r: Vec<char> = Vec::new();
    let mut i: usize = 0;
    while i < s.len()
        invariant
            i <= s@.len(),
            r@ == alnum_only(s@.take(i as int)),
        decreases s@.len() - i,
    {
        assert(s@.take(i as int + 1).drop_last() =~= s@.take(i as int));
        if is_alphanumeric(s[i]) {
            r.push(s[i]);
        }
        i = i + 1;
    }
    assert(s@.take(s@.len() as int) =~= s@);
    r
}

/// How often a topic must come up before a deeper dive is offered.
pub const HOT_TOPIC_COUNT: usize = 3;

/// Entry `i` of a count table is a hot topic not among `ex` that no other
/// such entry beats: none has a higher count, and among equal counts it
/// comes first.
pub open spec fn top_hot(ts: Seq<(Seq<char>, nat)>, i: int, ex: int) -> bool {
    &&& 0 <= i < ts.len()
    &&& i != ex
    &&& ts[i].1 >= HOT_TOPIC_COUNT
    &&& forall|j: int|
        #![trigger ts[j]]
        0 <= j < ts.len() && j != ex && ts[j].1 >= HOT_TOPIC_COUNT ==> ts[j].1 < ts[i].1 || (ts[j].1
            == ts[i].1 && i <= j)
}

/// Whether a count table holds a hot topic other than entry `ex`.
pub open spec fn has_hot(ts: Seq<(Seq<char>, nat)>, ex: int) -> bool {
    exists|j: int| #![trigger ts[j]] 0 <= j < ts.len() && j != ex && ts[j].1 >= HOT_TOPIC_COUNT
}

/// Entry `i` holds the highest count, and no later entry ties it.
pub open spec fn last_max(ts: Seq<(Seq<char>, nat)>, i: int) -> bool {
    &&& 0 <= i < ts.len()
    &&& forall|j: int| #![trigger ts[j]] 0 <= j < ts.len() ==> ts[j].1 <= ts[i].1
    &&& forall|j: int| #![trigger ts[j]] i < j < ts.len() ==> ts[j].1 < ts[i].1
}

/// Counts topics, domains and recent messages of a conversation.
pub struct SuggestionEngine {
    topic_counts: Vec<(String, usize)>,
    recent_intents: Vec<String>,
    domain_affinity: Vec<(String, usize)>,
    message_count: usize,
}

impl SuggestionEngine {
    #[verifier::type_invariant]
    spec fn wf(&self) -> bool {
        &&& distinct_keys(table_view(self.topic_counts@))
        &&& distinct_keys(table_view(self.domain_affinity@))
    }

    /// Topic counts, in the order topics were first seen.
    pub closed spec fn topics(&self) -> Seq<(Seq<char>, nat)> {
        table_view(self.topic_counts@)
    }

    /// Domain counts, in the order domains were first seen.
    pub closed spec fn domains(&self) -> Seq<(Seq<char>, nat)> {
        table_view(self.domain_affinity@)
    }

    /// The first characters of the recent messages, oldest first.
    pub closed spec fn intents(&self) -> Seq<Seq<char>> {
        self.recent_intents@.map_values(|s: String| s@)
    }

    /// The number of messages observed.
    pub closed spec fn messages(&self) -> nat {
        self.message_count as nat
    }


    pub fn new() -> (r: SuggestionEngine)
        ensures
            r.topics() == Seq::<(Seq<char>, nat)>::empty(),
            r.domains() == Seq::<(Seq<char>, nat)>::empty(),
            r.intents() == Seq::<Seq<char>>::empty(),
            r.messages() == 0,
    {
        let r = SuggestionEngine {
            topic_counts: Vec::new(),
            recent_intents: Vec::new(),
            domain_affinity: Vec::new(),
            message_count: 0,
        };
        assert(r.topics() =~= Seq::<(Seq<char>, nat)>::empty());
        assert(r.domains() =~= Seq::<(Seq<char>, nat)>::empty());
        assert(r.intents() =~= Seq::<Seq<char>>::empty());
        r
    }

    /// Count a user message: each of its topics once per occurrence, its
    /// domain if it has one, and its first characters as a recent intent.
    pub fn observe(&mut self, input: &str, domain: Option<&str>)
        requires
            old(self).messages() < usize::MAX,
            forall|i: int| 0 <= i < old(self).topics().len() ==> #[trigger] old(self).topics()[i].1 + input@.len() <= usize::MAX,
            forall|i: int| 0 <= i < old(self).domains().len() ==> #[trigger] old(self).domains()[i].1 < usize::MAX,
        ensures
            final(self).messages() == old(self).messages() + 1,
            final(self).topics() == bump_all(old(self).topics(), message_topics(input@)),
            final(self).domains() == (match domain {
                Some(d) => bump(old(self).domains(), d@),
                None => old(self).domains(),
            }),
            final(self).intents() == next_intents(old(self).intents(), input@),
    {
        proof {
            use_type_invariant(&*self);
            lemma_topics_bounded(input@);
        }
        let ghost v0: nat = if input@.len() <= usize::MAX { (usize::MAX - input@.len()) as nat } else { 0 };
        let ghost t0 = table_view(self.topic_counts@);
        proof {
            assert forall|j: int| 0 <= j < self.topic_counts@.len() implies #[trigger] self.topic_counts@[j].1 <= v0 by {
                assert(t0[j].1 == self.topic_counts@[j].1);
                assert(old(self).topics()[j].1 + input@.len() <= usize::MAX);
            }
        }
        let mut topics = Vec::new();
        let mut domains = Vec::new();
        let mut recent = Vec::new();
        std::mem::swap(&mut topics, &mut self.topic_counts);
        std::mem::swap(&mut domains, &mut self.domain_affinity);
        std::mem::swap(&mut recent, &mut self.recent_intents);
        let cs = chars_of(input);
        let ws = split_whitespace(cs.as_slice());
        proof {
            lemma_words_len(input@);
        }
        let ghost vs = views(ws@);
        let nws: usize = ws.len();
        proof {
            let d0 = table_view(domains@);
            assert forall|j: int| 0 <= j < domains@.len() implies #[trigger] domains@[j].1 < usize::MAX by {
                assert(d0[j].1 == domains@[j].1);
                assert(old(self).domains()[j].1 < usize::MAX);
            }
        }
        let mut i: usize = 0;
        while i < ws.len()
            invariant
                i <= ws@.len(),
                vs == views(ws@),
                vs == words(input@),
                vs.len() <= input@.len(),
                input@.len() <= usize::MAX ==> v0 + input@.len() == usize::MAX,
                input@.len() > usize::MAX ==> v0 == 0,
                ws@.len() == nws,
                forall|j: int| 0 <= j < domains@.len() ==> #[trigger] domains@[j].1 < usize::MAX,
                table_view(topics@) == bump_all(t0, topics_upto(vs, i as int)),
                distinct_keys(table_view(topics@)),
                forall|j: int| 0 <= j < topics@.len() ==> #[trigger] topics@[j].1 <= v0 + i,
            decreases ws@.len() - i,
        {
            assert(vs[i as int] == ws@[i as int]@);
            let lower = lowercase_chars(ws[i].as_slice());
            let clean = keep_alnum(lower.as_slice());
            if byte_len(clean.as_slice()) >= 5 && !is_stopword(clean.as_slice()) {
                proof {
                    lemma_bump(table_view(topics@), clean@, (v0 + i) as nat);
                }
                bump_key(&mut topics, clean.as_slice());
                proof {
                    let ks = topics_upto(vs, i as int);
                    assert(topics_upto(vs, i + 1) == ks.push(clean@));
                    assert(ks.push(clean@).drop_last() =~= ks);
                    assert forall|j: int| 0 <= j < topics@.len() implies #[trigger] topics@[j].1
                        <= v0 + i + 1 by {
                        assert(table_view(topics@)[j].1 == topics@[j].1);
                    }
                }
            } else {
                assert(topics_upto(vs, i + 1) == topics_upto(vs, i as int));
            }
            i = i + 1;
        }
        assert(topics_upto(vs, ws@.len() as int) == message_topics(input@));
        match domain {
            Some(d) => {
                let dc = chars_of(d);
                proof {
                    assert forall|j: int| 0 <= j < table_view(domains@).len() implies #[trigger] table_view(domains@)[j].1
                        <= usize::MAX - 1 by {
                        assert(table_view(domains@)[j].1 == domains@[j].1);
                    }
                    lemma_bump(table_view(domains@), d@, (usize::MAX - 1) as nat);
                }
                bump_key(&mut domains, dc.as_slice());
            },
            None => {},
        }
        let ghost r0 = recent@.map_values(|s: String| s@);
        if recent.len() > RECENT_LIMIT {
            recent.remove(0);
            assert(recent@.map_values(|s: String| s@) =~= r0.drop_first());
        }
        let ghost r1 = recent@.map_values(|s: String| s@);
        let mut head: Vec<char> = Vec::new();
        let mut k: usize = 0;
        while k < cs.len() && k < INTENT_CHARS
            invariant
                k <= cs@.len(),
                k <= INTENT_CHARS,
                head@ == cs@.take(k as int),
            decreases INTENT_CHARS - k,
        {
            head.push(cs[k]);
            assert(cs@.take(k as int + 1) =~= cs@.take(k as int).push(cs@[k as int]));
            k = k + 1;
        }
        assert(head@ == (if input@.len() < INTENT_CHARS { input@ } else { input@.take(
            INTENT_CHARS as int,
        ) }));
        let hs = string_from(head.as_slice());
        recent.push(hs);
        assert(recent@.map_values(|s: String| s@) =~= r1.push(hs@));
        self.topic_counts = topics;
        self.domain_affinity = domains;
        self.recent_intents = recent;
        self.message_count = self.message_count + 1;
    }
    /// The statistics of the conversation so far; the top topics are the
    /// first ten counted.
    pub fn stats(&self) -> (r: SuggestionStats)
        ensures
            r.messages_observed == self.messages(),
            r.unique_topics == self.topics().len(),
            r.domains_explored == self.domains().len(),
            table_view(r.top_topics@) == self.topics().take(
                if self.topics().len() < 10 { self.topics().len() as int } else { 10 },
            ),
    {
        let mut top: Vec<(String, usize)> = Vec::new();
        let mut i: usize = 0;
        while i < self.topic_counts.len() && i < 10
            invariant
                i <= self.topic_counts@.len(),
                i <= 10,
                table_view(top@) == table_view(self.topic_counts@).take(i as int),
            decreases 10 - i,
        {
            let k = chars_of(self.topic_counts[i].0.as_str());
            let key = string_from(k.as_slice());
            let ghost before = top@;
            let c = self.topic_counts[i].1;
            top.push((key, c));
            proof {
                assert(top@ == before.push((key, c)));
                assert(table_view(top@) =~= table_view(before).push((key@, c as nat)));
                assert(table_view(self.topic_counts@)[i as int] == (key@, c as nat));
                assert(table_view(top@) =~= table_view(self.topic_counts@).take(i as int + 1));
            }
            i = i + 1;
        }
        assert(table_view(top@) =~= self.topics().take(
            if self.topics().len() < 10 { self.topics().len() as int } else { 10 },
        ));
        SuggestionStats {
            messages_observed: self.message_count,
            unique_topics: self.topic_counts.len(),
            domains_explored: self.domain_affinity.len(),
            top_topics: top,
        }
    }

    /// The best hot topic of the table other than entry `ex` (see
    /// `top_hot`), as its index.
    fn best_hot(&self, ex: usize) -> (r: Option<usize>)
        ensures
            match r {
                Some(i) => top_hot(self.topics(), i as int, ex as int),
                None => !has_hot(self.topics(), ex as int),
            },
    {
        let ghost ts = self.topics();
        let mut best: Option<usize> = None;
        let mut j: usize = 0;
        while j < self.topic_counts.len()
            invariant
                j <= self.topic_counts@.len(),
                ts == self.topics(),
                ts.len() == self.topic_counts@.len(),
                match best {
                    Some(b) => b < j && b != ex && ts[b as int].1 >= HOT_TOPIC_COUNT && forall|k: int|
                        #![trigger ts[k]]
                        0 <= k < j && k != ex && ts[k].1 >= HOT_TOPIC_COUNT ==> ts[k].1 < ts[b as int].1
                            || (ts[k].1 == ts[b as int].1 && b <= k),
                    None => forall|k: int|
                        #![trigger ts[k]]
                        0 <= k < j && k != ex ==> ts[k].1 < HOT_TOPIC_COUNT,
                },
            decreases self.topic_counts@.len() - j,
        {
            let c = self.topic_counts[j].1;
            assert(ts[j as int].1 == c);
            if j != ex && c >= HOT_TOPIC_COUNT {
                match best {
                    None => {
                        best = Some(j);
                    },
                    Some(b) => {
                        assert(ts[b as int].1 == self.topic_counts@[b as int].1);
                        if c > self.topic_counts[b].1 {
                            best = Some(j);
                        }
                    },
                }
            }
            j = j + 1;
        }
        best
    }

    /// The (at most two) hot topics, most frequent first: topics counted at
    /// least three times, ties in the order topics were first seen.
    pub fn hot_topics(&self) -> (r: Vec<(String, usize)>)
        ensures
            !has_hot(self.topics(), -1) ==> r@.len() == 0,
            has_hot(self.topics(), -1) ==> exists|i1: int|
                #[trigger] top_hot(self.topics(), i1, -1) && r@[0].0@ == self.topics()[i1].0
                    && r@[0].1 == self.topics()[i1].1 && (!has_hot(self.topics(), i1) ==> r@.len()
                    == 1) && (has_hot(self.topics(), i1) ==> r@.len() == 2 && exists|i2: int|
                    #[trigger] top_hot(self.topics(), i2, i1) && r@[1].0@ == self.topics()[i2].0
                        && r@[1].1 == self.topics()[i2].1),
    {
        let mut out: Vec<(String, usize)> = Vec::new();
        let n = self.topic_counts.len();
        let ex_none: usize = n;
        let first = self.best_hot(ex_none);
        proof {
            let ts = self.topics();
            if has_hot(ts, -1) {
                let j = choose|j: int| #![trigger ts[j]] 0 <= j < ts.len() && j != -1 && ts[j].1 >= HOT_TOPIC_COUNT;
                assert(j != ex_none as int);
            }
            if first is Some {
                let i = first->0;
                assert forall|j: int| #![trigger ts[j]] 0 <= j < ts.len() && j != -1 && ts[j].1 >= HOT_TOPIC_COUNT
                    implies ts[j].1 < ts[i as int].1 || (ts[j].1 == ts[i as int].1 && i <= j) by {
                    assert(j != ex_none as int);
                }
            }
        }
        match first {
            None => {
                return out;
            },
            Some(i1) => {
                let k1 = chars_of(self.topic_counts[i1].0.as_str());
                out.push((string_from(k1.as_slice()), self.topic_counts[i1].1));
                assert(self.topics()[i1 as int].0 == self.topic_counts@[i1 as int].0@);
                let second = self.best_hot(i1);
                match second {
                    None => {},
                    Some(i2) => {
                        let k2 = chars_of(self.topic_counts[i2].0.as_str());
                        out.push((string_from(k2.as_slice()), self.topic_counts[i2].1));
                        assert(self.topics()[i2 as int].0 == self.topic_counts@[i2 as int].0@);
                    },
                }
                assert(top_hot(self.topics(), i1 as int, -1));
            },
        }
        out
    }

    /// The domain counted most often (the last such domain on a tie, as
    /// `Iterator::max_by_key` picks), with its count; none before any
    /// domain was counted.
    pub fn dominant_domain(&self) -> (r: Option<(String, usize)>)
        ensures
            self.domains().len() == 0 ==> r is None,
            self.domains().len() > 0 ==> (r matches Some(p) && exists|i: int|
                #[trigger] last_max(self.domains(), i) && p.0@ == self.domains()[i].0 && p.1
                    == self.domains()[i].1),
    {
        let ghost ts = self.domains();
        let n = self.domain_affinity.len();
        if n == 0 {
            return None;
        }
        let mut best: usize = 0;
        let mut j: usize = 1;
        assert(ts[0].1 == self.domain_affinity@[0].1);
        while j < n
            invariant
                1 <= j <= n,
                n == self.domain_affinity@.len(),
                ts == self.domains(),
                ts.len() == n,
                best < j,
                forall|k: int| #![trigger ts[k]] 0 <= k < j ==> ts[k].1 <= ts[best as int].1,
                forall|k: int| #![trigger ts[k]] best < k < j ==> ts[k].1 < ts[best as int].1,
            decreases n - j,
        {
            assert(ts[j as int].1 == self.domain_affinity@[j as int].1);
            assert(ts[best as int].1 == self.domain_affinity@[best as int].1);
            if self.domain_affinity[j].1 >= self.domain_affinity[best].1 {
                best = j;
            }
            j = j + 1;
        }
        let k = chars_of(self.domain_affinity[best].0.as_str());
        assert(ts[best as int].0 == self.domain_affinity@[best as int].0@);
        assert(last_max(ts, best as int));
        Some((string_from(k.as_slice()), self.domain_affinity[best].1))
    }

    /// The topic counts, in the order topics were first seen.
    pub fn topic_counts(&self) -> (r: &Vec<(String, usize)>)
        ensures
            table_view(r@) == self.topics(),
    {
        &self.topic_counts
    }

    /// The domain counts, in the order domains were first seen.
    pub fn domain_affinity(&self) -> (r: &Vec<(String, usize)>)
        ensures
            table_view(r@) == self.domains(),
    {
        &self.domain_affinity
    }

    /// The first characters of the recent messages, oldest first.
    pub fn recent_intents(&self) -> (r: &Vec<String>)
        ensures
            r@.map_values(|s: String| s@) == self.intents(),
    {
        &self.recent_intents
    }

    /// The number of messages observed.
    pub fn message_count(&self) -> (r: usize)
        ensures
            r == self.messages(),
    {
        self.message_count
    }
}

/// Statistics of a conversation.
#[derive(Debug)]
pub struct SuggestionStats {
    pub messages_observed: usize,
    pub unique_topics: usize,
    pub domains_explored: usize,
    pub top_topics: Vec<(String, usize)>,
}

} // verus!
