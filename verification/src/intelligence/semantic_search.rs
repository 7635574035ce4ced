//! Semantic search over facts by hypervector similarity.
//!
//! A text is encoded as the bundle of the seeded vectors of its character
//! trigrams and of its longer words; facts are ranked by how few dimensions
//! their vectors differ from the query's.
use vstd::prelude::*;
use std::collections::hash_map::DefaultHasher;
use std::hash::{Hash, Hasher};
use crate::hdc::vector::{BipolarVector, HD_DIMENSIONS, bundle_seq, seed_bits, vec_views, hamming_seq, lemma_hamming_bounded};
use crate::text::{
    chars_of, chars_eq, lowercase_str, unicode_lowercase, split_whitespace, words, views, byte_len,
    utf8_len, string_from,
};
use crate::cognition::suggestion_engine::{stopwords, is_stopword};

verus! {

/// What `simple_hash` returns: `DefaultHasher::new()` fed the string with
/// `str::hash`, then `finish`. `DefaultHasher::new` is not seeded per
/// process; its SipHash algorithm is fixed by the standard library.
pub uninterp spec fn default_hash(s: Seq<char>) -> u64;

/// Hashes a string with `DefaultHasher::new()` (`str::hash`, then
/// `Hasher::finish`). Its result is named `default_hash`.
#[verifier::external_body]
fn simple_hash(s: &str) -> (r: u64)
    ensures
        r == default_hash(s@),
{
    let mut hasher = DefaultHasher::new();
    s.hash(&mut hasher);
    hasher.finish()
}

/// Where a search hit came from.
#[derive(Debug, Clone, Copy, PartialEq, Eq, Structural)]
pub enum SearchSource {
    Semantic,
    Keyword,
    Both,
}

/// The seeded vectors of the character trigrams of a lower-cased text.
pub open spec fn trigram_bits(lower: Seq<char>) -> Seq<Seq<bool>> {
    Seq::new((lower.len() - 2) as nat, |j: int| seed_bits(default_hash(lower.subrange(j, j + 3))))
}

/// The words, among the first `n`, of at least four bytes that are no stop
/// words.
pub open spec fn long_words(ws: Seq<Seq<char>>, n: int) -> Seq<Seq<char>>
    decreases n,
{
    if n <= 0 {
        seq![]
    } else if utf8_len(ws[n - 1]) >= 4 && !stopwords().contains(ws[n - 1]) {
        long_words(ws, n - 1).push(ws[n - 1])
    } else {
        long_words(ws, n - 1)
    }
}

/// The seeded vectors of the long words of a lower-cased text.
pub open spec fn word_bits(lower: Seq<char>) -> Seq<Seq<bool>> {
    long_words(words(lower), words(lower).len() as int).map_values(
        |w: Seq<char>| seed_bits(default_hash(w)),
    )
}

/// The encoding of a text: for a lower-cased text of fewer than three
/// characters the vector of seed zero, else the bundle of its trigram
/// vectors followed by its long-word vectors.
pub open spec fn text_bits(text: Seq<char>) -> Seq<bool> {
    let lower = unicode_lowercase(text);
    if lower.len() < 3 {
        seed_bits(0)
    } else {
        bundle_seq(trigram_bits(lower) + word_bits(lower))
    }
}

/// Encode a text as a hypervector (see `text_bits`).
pub fn encode_text(text: &str) -> (r: BipolarVector)
    ensures
        r@ == text_bits(text@),
        r@.len() == HD_DIMENSIONS,
{
    let lower = lowercase_str(text);
    let n = lower.len();
    if n < 3 {
        return BipolarVector::from_seed(0);
    }
    let ghost lv = lower@;
    let mut vectors: Vec<BipolarVector> = Vec::new();
    let mut j: usize = 0;
    while j + 2 < n
        invariant
            n == lv.len(),
            lower@ == lv,
            n >= 3,
            j <= n - 2,
            vectors@.len() == j,
            forall|k: int| 0 <= k < j ==> #[trigger] vectors@[k]@ == trigram_bits(lv)[k],
        decreases n - j,
    {
        let mut tri: Vec<char> = Vec::new();
        tri.push(lower[j]);
        tri.push(lower[j + 1]);
        tri.push(lower[j + 2]);
        assert(tri@ =~= lv.subrange(j as int, j + 3));
        let ts = string_from(tri.as_slice());
        let h = simple_hash(ts.as_str());
        vectors.push(BipolarVector::from_seed(h));
        j = j + 1;
    }
    let ws = split_whitespace(lower.as_slice());
    let ghost vs = views(ws@);
    let ghost tri_count = vectors@.len();
    let mut i: usize = 0;
    while i < ws.len()
        invariant
            i <= ws@.len(),
            vs == views(ws@),
            vs == words(lv),
            tri_count == n - 2,
            vectors@.len() == tri_count + long_words(vs, i as int).len(),
            forall|k: int| 0 <= k < tri_count ==> #[trigger] vectors@[k]@ == trigram_bits(lv)[k],
            forall|k: int|
                tri_count <= k < vectors@.len() ==> #[trigger] vectors@[k]@ == seed_bits(
                    default_hash(long_words(vs, i as int)[k - tri_count]),
                ),
        decreases ws@.len() - i,
    {
        assert(vs[i as int] == ws@[i as int]@);
        if byte_len(ws[i].as_slice()) >= 4 && !is_stopword(ws[i].as_slice()) {
            let wstr = string_from(ws[i].as_slice());
            let h = simple_hash(wstr.as_str());
            vectors.push(BipolarVector::from_seed(h));
        }
        i = i + 1;
    }
    let ghost all = trigram_bits(lv) + word_bits(lv);
    let mut refs: Vec<&BipolarVector> = Vec::new();
    let mut k: usize = 0;
    while k < vectors.len()
        invariant
            k <= vectors@.len(),
            refs@.len() == k,
            forall|m: int| 0 <= m < k ==> #[trigger] refs@[m]@ == vectors@[m]@,
        decreases vectors@.len() - k,
    {
        refs.push(&vectors[k]);
        k = k + 1;
    }
    proof {
        assert(vec_views(refs@) =~= all);
        assert forall|m: int| 0 <= m < all.len() implies #[trigger] all[m].len() == all[0].len() by {
        }
    }
    match BipolarVector::bundle(refs.as_slice()) {
        Ok(v) => v,
        Err(_) => BipolarVector::from_seed(0),
    }
}

/// The key table with `k` bound to `v`: replaced in place when `k` is
/// present, appended otherwise.
pub open spec fn upsert(m: Seq<(Seq<char>, Seq<bool>)>, k: Seq<char>, v: Seq<bool>) -> Seq<(Seq<char>, Seq<bool>)> {
    if exists|i: int| 0 <= i < m.len() && #[trigger] m[i].0 == k {
        let i = choose|i: int| 0 <= i < m.len() && #[trigger] m[i].0 == k;
        m.update(i, (k, v))
    } else {
        m.push((k, v))
    }
}

/// Entry `i` comes before entry `j` in a ranking by distance: smaller
/// distance first, earlier entry first among equal distances.
pub open spec fn ranks_before(ds: Seq<nat>, i: int, j: int) -> bool {
    ds[i] < ds[j] || (ds[i] == ds[j] && i < j)
}

/// `idx` lists, nearest first, the `k` entries nearest by distance (all of
/// them when there are fewer).
pub open spec fn nearest_indices(ds: Seq<nat>, idx: Seq<int>, k: nat) -> bool {
    &&& idx.len() == (if k < ds.len() { k } else { ds.len() })
    &&& forall|m: int| 0 <= m < idx.len() ==> 0 <= #[trigger] idx[m] < ds.len()
    &&& forall|a: int, b: int|
        0 <= a < b < idx.len() ==> ranks_before(ds, #[trigger] idx[a], #[trigger] idx[b])
    &&& forall|j: int, m: int|
        0 <= j < ds.len() && !idx.contains(j) && 0 <= m < idx.len() ==> #[trigger] ranks_before(
            ds,
            idx[m],
            j,
        )
}

/// How many of the first `n` marks are set.
pub open spec fn marked_count(s: Seq<bool>, n: int) -> nat
    decreases n,
{
    if n <= 0 {
        0
    } else {
        marked_count(s, n - 1) + if s[n - 1] { 1nat } else { 0nat }
    }
}

proof fn lemma_marked_none(s: Seq<bool>, n: int)
    requires
        0 <= n <= s.len(),
        forall|j: int| 0 <= j < n ==> !#[trigger] s[j],
    ensures
        marked_count(s, n) == 0,
    decreases n,
{
    if n > 0 {
        lemma_marked_none(s, n - 1);
    }
}

proof fn lemma_marked_all(s: Seq<bool>, n: int)
    requires
        0 <= n <= s.len(),
        forall|j: int| 0 <= j < n ==> #[trigger] s[j],
    ensures
        marked_count(s, n) == n,
    decreases n,
{
    if n > 0 {
        lemma_marked_all(s, n - 1);
    }
}

proof fn lemma_marked_set(s: Seq<bool>, b: int, n: int)
    requires
        0 <= b < s.len(),
        0 <= n <= s.len(),
        !s[b],
    ensures
        marked_count(s.update(b, true), n) == marked_count(s, n) + if b < n { 1nat } else { 0nat },
    decreases n,
{
    if n > 0 {
        lemma_marked_set(s, b, n - 1);
    }
}

/// Semantic index of facts with a bounded number of entries.
pub struct SemanticSearchEngine {
    cache: Vec<(String, BipolarVector)>,
    max_cache: usize,
}

impl SemanticSearchEngine {
    #[verifier::type_invariant]
    spec fn wf(&self) -> bool {
        &&& self.cache@.len() <= self.max_cache
        &&& forall|i: int, j: int|
            0 <= i < j < self.cache@.len() ==> #[trigger] self.cache@[i].0@ != #[trigger] self.cache@[j].0@
        &&& forall|i: int| 0 <= i < self.cache@.len() ==> #[trigger] self.cache@[i].1@.len() == HD_DIMENSIONS
    }

    /// The indexed facts: key and vector, in the order first indexed.
    pub closed spec fn entries(&self) -> Seq<(Seq<char>, Seq<bool>)> {
        self.cache@.map_values(|e: (String, BipolarVector)| (e.0@, e.1@))
    }

    /// The largest number of facts held.
    pub closed spec fn capacity(&self) -> usize {
        self.max_cache
    }

    pub fn new(max_cache: usize) -> (r: SemanticSearchEngine)
        ensures
            r.entries() == Seq::<(Seq<char>, Seq<bool>)>::empty(),
            r.capacity() == max_cache,
    {
        let r = SemanticSearchEngine { cache: Vec::new(), max_cache };
        assert(r.entries() =~= Seq::<(Seq<char>, Seq<bool>)>::empty());
        r
    }

    /// Index a fact under its key; nothing happens once the index is full.
    pub fn index_fact(&mut self, key: &str, text: &str)
        ensures
            old(self).entries().len() >= old(self).capacity() ==> final(self).entries() == old(
                self,
            ).entries(),
            old(self).entries().len() < old(self).capacity() ==> final(self).entries() == upsert(
                old(self).entries(),
                key@,
                text_bits(text@),
            ),
            final(self).capacity() == old(self).capacity(),
    {
        proof {
            use_type_invariant(&*self);
        }
        if self.cache.len() >= self.max_cache {
            return;
        }
        let v = encode_text(text);
        let kc = chars_of(key);
        let ghost m = self.entries();
        let mut i: usize = 0;
        while i < self.cache.len()
            invariant
                i <= self.cache@.len(),
                m == self.entries(),
                kc@ == key@,
                v@ == text_bits(text@),
                v@.len() == HD_DIMENSIONS,
                self.max_cache == old(self).max_cache,
                self.cache@ == old(self).cache@,
                self.cache@.len() < self.max_cache,
                forall|j: int| 0 <= j < i ==> #[trigger] self.cache@[j].0@ != key@,
            decreases self.cache@.len() - i,
        {
            let c = chars_of(self.cache[i].0.as_str());
            if chars_eq(c.as_slice(), kc.as_slice()) {
                proof {
                    use_type_invariant(&*self);
                    assert(m[i as int].0 == key@);
                    let w = choose|w: int| 0 <= w < m.len() && #[trigger] m[w].0 == key@;
                    assert(w == i) by {
                        if w != i {
                            assert(self.cache@[w].0@ == self.cache@[i as int].0@);
                        }
                    }
                }
                let ks = string_from(kc.as_slice());
                proof {
                    assert forall|a: int, b: int| 0 <= a < b < m.len() implies m[a].0 != m[b].0 by {
                        assert(m[a].0 == self.cache@[a].0@);
                        assert(m[b].0 == self.cache@[b].0@);
                    }
                    assert forall|a: int| 0 <= a < m.len() implies m[a].1.len() == HD_DIMENSIONS by {
                        assert(m[a].1 == self.cache@[a].1@);
                    }
                }
                let mut cache = Vec::new();
                std::mem::swap(&mut cache, &mut self.cache);
                cache.set(i, (ks, v));
                let ghost nm = m.update(i as int, (key@, v@));
                proof {
                    assert(cache@.map_values(|e: (String, BipolarVector)| (e.0@, e.1@)) =~= nm);
                    assert forall|a: int, b: int| 0 <= a < b < cache@.len() implies #[trigger] cache@[a].0@
                        != #[trigger] cache@[b].0@ by {
                        assert(cache@[a].0@ == nm[a].0);
                        assert(cache@[b].0@ == nm[b].0);
                    }
                    assert forall|a: int| 0 <= a < cache@.len() implies #[trigger] cache@[a].1@.len()
                        == HD_DIMENSIONS by {
                        assert(cache@[a].1@ == nm[a].1);
                    }
                }
                self.cache = cache;
                assert(self.entries() =~= upsert(m, key@, text_bits(text@)));
                return;
            }
            i = i + 1;
        }
        proof {
            use_type_invariant(&*self);
            assert(!exists|w: int| 0 <= w < m.len() && #[trigger] m[w].0 == key@) by {
                if exists|w: int| 0 <= w < m.len() && #[trigger] m[w].0 == key@ {
                    let w = choose|w: int| 0 <= w < m.len() && #[trigger] m[w].0 == key@;
                    assert(self.cache@[w].0@ == m[w].0);
                }
            }
        }
        let ks = string_from(kc.as_slice());
        let mut cache = Vec::new();
        std::mem::swap(&mut cache, &mut self.cache);
        cache.push((ks, v));
        proof {
            assert forall|a: int, b: int| 0 <= a < b < cache@.len() implies #[trigger] cache@[a].0@
                != #[trigger] cache@[b].0@ by {
                if b == cache@.len() - 1 {
                    assert(m[a].0 == cache@[a].0@);
                } else {
                    assert(m[a].0 == cache@[a].0@);
                    assert(m[b].0 == cache@[b].0@);
                }
            }
        }
        self.cache = cache;
        assert(self.entries() =~= upsert(m, key@, text_bits(text@)));
    }

    /// The distance of each indexed fact's vector to `q`.
    pub closed spec fn distances(&self, q: Seq<bool>) -> Seq<nat> {
        self.cache@.map_values(|e: (String, BipolarVector)| hamming_seq(q, e.1@))
    }

    /// The `top_k` indexed facts nearest to the query's encoding, nearest
    /// first (earlier indexed first among equals), each with the number of
    /// dimensions on which it differs from the query. Nearest means most
    /// similar: cosine similarity falls as the distance grows.
    pub fn nearest(&self, query: &str, top_k: usize) -> (r: Vec<(String, usize)>)
        ensures
            exists|idx: Seq<int>|
                #[trigger] nearest_indices(self.distances(text_bits(query@)), idx, top_k as nat)
                    && r@.len() == idx.len() && forall|m: int|
                    0 <= m < idx.len() ==> (#[trigger] r@[m]).0@ == self.entries()[idx[m]].0
                        && r@[m].1 == self.distances(text_bits(query@))[idx[m]],
            forall|a: int, b: int| 0 <= a < b < r@.len() ==> #[trigger] r@[a].0@ != #[trigger] r@[b].0@,
    {
        proof {
            use_type_invariant(self);
        }
        let q = encode_text(query);
        let n = self.cache.len();
        let ghost ds = self.distances(q@);
        let mut dist: Vec<usize> = Vec::new();
        let mut i: usize = 0;
        while i < n
            invariant
                n == self.cache@.len(),
                i <= n,
                q@.len() == HD_DIMENSIONS,
                ds == self.distances(q@),
                forall|k: int| 0 <= k < n ==> #[trigger] self.cache@[k].1@.len() == HD_DIMENSIONS,
                dist@.len() == i,
                forall|k: int| 0 <= k < i ==> #[trigger] dist@[k] == ds[k],
            decreases n - i,
        {
            proof {
                lemma_hamming_bounded(q@, self.cache@[i as int].1@, q@.len() as int);
            }
            let d = match q.hamming_distance(&self.cache[i].1) {
                Ok(d) => d,
                Err(_) => 0,
            };
            dist.push(d);
            i = i + 1;
        }
        let m = if top_k < n {
            top_k
        } else {
            n
        };
        let mut picked: Vec<bool> = Vec::new();
        let mut z: usize = 0;
        while z < n
            invariant
                z <= n,
                picked@.len() == z,
                forall|k: int| 0 <= k < z ==> !#[trigger] picked@[k],
            decreases n - z,
        {
            picked.push(false);
            z = z + 1;
        }
        proof {
            assert(marked_count(picked@, n as int) == 0) by {
                lemma_marked_none(picked@, n as int);
            }
        }
        let ghost mut idx: Seq<int> = seq![];
        let mut out: Vec<(String, usize)> = Vec::new();
        while out.len() < m
            invariant
                m <= n,
                m == (if top_k < n { top_k } else { n }),
                n == self.cache@.len(),
                n == ds.len(),
                dist@.len() == n,
                forall|k: int| 0 <= k < n ==> #[trigger] dist@[k] == ds[k],
                picked@.len() == n,
                out@.len() == idx.len(),
                idx.len() <= m,
                marked_count(picked@, n as int) == idx.len(),
                forall|j: int| 0 <= j < n ==> (#[trigger] picked@[j] <==> idx.contains(j)),
                forall|t: int| 0 <= t < idx.len() ==> 0 <= #[trigger] idx[t] < n,
                forall|a: int, b: int|
                    0 <= a < b < idx.len() ==> ranks_before(ds, #[trigger] idx[a], #[trigger] idx[b]),
                forall|j: int, t: int|
                    0 <= j < n && !idx.contains(j) && 0 <= t < idx.len() ==> #[trigger] ranks_before(
                        ds,
                        idx[t],
                        j,
                    ),
                forall|t: int|
                    0 <= t < idx.len() ==> (#[trigger] out@[t]).0@ == self.entries()[idx[t]].0
                        && out@[t].1 == ds[idx[t]],
            decreases m - out@.len(),
        {
            proof {
                if forall|j: int| 0 <= j < n ==> #[trigger] picked@[j] {
                    lemma_marked_all(picked@, n as int);
                }
            }
            let mut best: usize = n;
            let mut j: usize = 0;
            while j < n
                invariant
                    j <= n,
                    n == picked@.len(),
                    n == dist@.len(),
                    best == n || (best < j && !picked@[best as int]),
                    best == n ==> forall|k: int| 0 <= k < j ==> #[trigger] picked@[k],
                    best < n ==> forall|k: int|
                        0 <= k < j && !picked@[k] ==> #[trigger] dist@[k] >= dist@[best as int]
                            && (dist@[k] == dist@[best as int] ==> best <= k),
                decreases n - j,
            {
                if !picked[j] && (best == n || dist[j] < dist[best]) {
                    best = j;
                }
                j = j + 1;
            }
            assert(best < n);
            proof {
                lemma_marked_set(picked@, best as int, n as int);
            }
            let ghost old_idx = idx;
            let ghost pk = picked@;
            picked.set(best, true);
            let k = chars_of(self.cache[best].0.as_str());
            out.push((string_from(k.as_slice()), dist[best]));
            proof {
                idx = idx.push(best as int);
                assert(self.entries()[best as int].0 == self.cache@[best as int].0@);
                assert forall|jj: int| 0 <= jj < n implies (#[trigger] picked@[jj] <==> idx.contains(jj)) by {
                    if jj == best as int {
                        assert(idx[idx.len() - 1] == jj);
                    } else if old_idx.contains(jj) {
                        let w = choose|w: int| 0 <= w < old_idx.len() && old_idx[w] == jj;
                        assert(idx[w] == jj);
                    } else if idx.contains(jj) {
                        let w = choose|w: int| 0 <= w < idx.len() && idx[w] == jj;
                        if w < old_idx.len() {
                            assert(old_idx[w] == jj);
                        }
                    }
                }
                assert forall|t: int| 0 <= t < old_idx.len() implies ranks_before(ds, #[trigger] idx[t], best as int) by {
                    assert(idx[t] == old_idx[t]);
                }
                assert forall|jj: int, t: int|
                    0 <= jj < n && !idx.contains(jj) && 0 <= t < idx.len() implies #[trigger] ranks_before(
                        ds,
                        idx[t],
                        jj,
                    ) by {
                    assert(!old_idx.contains(jj)) by {
                        if old_idx.contains(jj) {
                            let w = choose|w: int| 0 <= w < old_idx.len() && old_idx[w] == jj;
                            assert(idx[w] == jj);
                        }
                    }
                    if t < old_idx.len() {
                        assert(idx[t] == old_idx[t]);
                    } else {
                        assert(idx[t] == best as int);
                        assert(jj != best as int) by {
                            assert(idx[idx.len() - 1] == best as int);
                        }
                        assert(pk[jj] == picked@[jj]);
                        assert(!pk[jj]);
                        assert(dist@[jj] >= dist@[best as int]);
                        assert(dist@[jj] == ds[jj]);
                        assert(dist@[best as int] == ds[best as int]);
                    }
                }
            }
        }
        proof {
            assert(nearest_indices(self.distances(text_bits(query@)), idx, top_k as nat));
            assert forall|a: int, b: int| 0 <= a < b < out@.len() implies #[trigger] out@[a].0@ != #[trigger] out@[b].0@ by {
                assert(ranks_before(ds, idx[a], idx[b]));
                assert(idx[a] != idx[b]);
                assert(self.entries()[idx[a]].0 == self.cache@[idx[a]].0@);
                assert(self.entries()[idx[b]].0 == self.cache@[idx[b]].0@);
                if idx[a] < idx[b] {
                    assert(self.cache@[idx[a]].0@ != self.cache@[idx[b]].0@);
                } else {
                    assert(self.cache@[idx[b]].0@ != self.cache@[idx[a]].0@);
                }
            }
        }
        out
    }

    /// The number of indexed facts.
    pub fn cached_count(&self) -> (n: usize)
        ensures
            n == self.entries().len(),
    {
        self.cache.len()
    }
}

} // verus!
