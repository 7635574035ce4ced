//! String-keyed codebook: one deterministic concept vector per symbol,
//! derived on first lookup and cached up to a bound.
use vstd::prelude::*;
use crate::hdc::role_binding::{concept_bits, concept_vector};
use crate::hdc::vector::BipolarVector;
use crate::hdlm::codebook::entry_keys;

verus! {

/// The symbol as it is seeded: `namespace::symbol`, or the bare symbol
/// when the namespace is empty.
pub open spec fn qualify_seq(namespace: Seq<char>, symbol: Seq<char>) -> Seq<char> {
    if namespace.len() == 0 {
        symbol
    } else {
        namespace + "::"@ + symbol
    }
}

/// Default cache bound.
pub const DEFAULT_CACHE_ENTRIES: usize = 65_536;

/// A lazily materialised codebook keyed on symbols.
pub struct SymbolicCodebook {
    namespace: String,
    cache: Vec<(String, BipolarVector)>,
    max_entries: usize,
}

impl SymbolicCodebook {
    #[verifier::type_invariant]
    spec fn inv(&self) -> bool {
        &&& self.max_entries >= 1
        &&& self.cache@.len() <= self.max_entries
        &&& forall|i: int| 0 <= i < self.cache@.len() ==> (#[trigger] self.cache@[i]).1@ == concept_bits(
            self.cache@[i].0@,
        )
        &&& forall|i: int, j: int|
            0 <= i < j < self.cache@.len() ==> (#[trigger] self.cache@[i]).0@
                != (#[trigger] self.cache@[j]).0@
    }

    /// The namespace.
    pub closed spec fn ns(&self) -> Seq<char> {
        self.namespace@
    }

    /// The cache bound.
    pub closed spec fn capacity(&self) -> nat {
        self.max_entries as nat
    }

    /// The qualified symbols held in the cache.
    pub closed spec fn cached_keys(&self) -> Seq<Seq<char>> {
        entry_keys(self.cache@)
    }

    /// The vector the codebook gives `symbol`.
    pub open spec fn encoding(&self, symbol: Seq<char>) -> Seq<bool> {
        concept_bits(qualify_seq(self.ns(), symbol))
    }

    /// A codebook with the given namespace and the default cache bound.
    pub fn new(namespace: &str) -> (r: Self)
        ensures
            r.ns() == namespace@,
            r.capacity() == DEFAULT_CACHE_ENTRIES,
            r.cached_keys().len() == 0,
    {
        Self::with_capacity(namespace, DEFAULT_CACHE_ENTRIES)
    }

    /// A codebook caching at most `max_entries` vectors (at least one).
    pub fn with_capacity(namespace: &str, max_entries: usize) -> (r: Self)
        ensures
            r.ns() == namespace@,
            r.capacity() == if max_entries >= 1 { max_entries as nat } else { 1 },
            r.cached_keys().len() == 0,
    {
        let cap = if max_entries >= 1 {
            max_entries
        } else {
            1
        };
        let cb = SymbolicCodebook {
            namespace: String::from_str(namespace),
            cache: Vec::new(),
            max_entries: cap,
        };
        assert(cb.cached_keys() =~= Seq::<Seq<char>>::empty());
        cb
    }

    /// The deterministic vector of `symbol`; cached after the first call.
    /// When the cache is full, the oldest entry is evicted first.
    pub fn encode(&mut self, symbol: &str) -> (r: BipolarVector)
        ensures
            r@ == old(self).encoding(symbol@),
            final(self).ns() == old(self).ns(),
            final(self).capacity() == old(self).capacity(),
            final(self).cached_keys().contains(qualify_seq(old(self).ns(), symbol@)),
            final(self).cached_keys().len() <= final(self).capacity(),
            old(self).cached_keys().contains(qualify_seq(old(self).ns(), symbol@))
                ==> final(self).cached_keys() == old(self).cached_keys(),
            !old(self).cached_keys().contains(qualify_seq(old(self).ns(), symbol@))
                && old(self).cached_keys().len() < old(self).capacity()
                ==> final(self).cached_keys() == old(self).cached_keys().push(qualify_seq(old(self).ns(), symbol@)),
            !old(self).cached_keys().contains(qualify_seq(old(self).ns(), symbol@))
                && old(self).cached_keys().len() >= old(self).capacity()
                ==> final(self).cached_keys() == old(self).cached_keys().drop_first().push(
                    qualify_seq(old(self).ns(), symbol@)),
    {
        proof {
            use_type_invariant(&*self);
        }
        let key = self.qualify(symbol);
        let mut i: usize = 0;
        while i < self.cache.len()
            invariant
                i <= self.cache@.len(),
                key@ == qualify_seq(self.ns(), symbol@),
                self.cache@.len() <= self.max_entries,
                forall|j: int| 0 <= j < self.cache@.len() ==> (#[trigger] self.cache@[j]).1@
                    == concept_bits(self.cache@[j].0@),
                forall|j: int| 0 <= j < i ==> (#[trigger] self.cache@[j]).0@ != key@,
            decreases self.cache@.len() - i,
        {
            if self.cache[i].0 == key {
                let v = self.cache[i].1.copied();
                assert(self.cached_keys()[i as int] == key@);
                return v;
            }
            i = i + 1;
        }
        let v = concept_vector(key.as_str());
        let stored = v.copied();
        let ghost kv = key@;
        let mut cache: Vec<(String, BipolarVector)> = Vec::new();
        std::mem::swap(&mut cache, &mut self.cache);
        if cache.len() >= self.max_entries {
            let _evicted = cache.remove(0);
        }
        proof {
            assert forall|j: int| 0 <= j < cache@.len() implies (#[trigger] cache@[j]).0@ != kv by {
                assert(old(self).cache@.contains(cache@[j]));
            }
        }
        cache.push((key, stored));
        self.cache = cache;
        assert(self.cached_keys()[self.cache@.len() - 1] == kv);
        v
    }

    /// The vector of `symbol`, derived afresh without touching the cache.
    pub fn encode_uncached(&self, symbol: &str) -> (r: BipolarVector)
        ensures
            r@ == self.encoding(symbol@),
    {
        let key = self.qualify(symbol);
        concept_vector(key.as_str())
    }

    /// Number of cached vectors.
    pub fn cached_count(&self) -> (r: usize)
        ensures
            r == self.cached_keys().len(),
            r <= self.capacity(),
    {
        proof {
            use_type_invariant(self);
        }
        self.cache.len()
    }

    /// The namespace.
    pub fn namespace(&self) -> (r: &str)
        ensures
            r@ == self.ns(),
    {
        self.namespace.as_str()
    }

    /// The qualified symbol.
    fn qualify(&self, symbol: &str) -> (r: String)
        ensures
            r@ == qualify_seq(self.ns(), symbol@),
    {
        if self.namespace.as_str().is_empty() {
            String::from_str(symbol)
        } else {
            let mut s = String::from_str(self.namespace.as_str());
            s.append("::");
            s.append(symbol);
            s
        }
    }
}

/// Two codebooks with the same namespace give every symbol the same vector.
pub proof fn lemma_encoding_deterministic(a: SymbolicCodebook, b: SymbolicCodebook, symbol: Seq<char>)
    requires
        a.ns() == b.ns(),
    ensures
        a.encoding(symbol) == b.encoding(symbol),
{
}

} // verus!
