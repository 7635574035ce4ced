//! Item memory: one random base vector per syntax-tree node kind and ten
//! positional bases.
use vstd::prelude::*;
use crate::hdc::vector::{BipolarVector, HD_DIMENSIONS, hamming_seq, lemma_hamming_bounded};
use crate::hdc::error::HdcError;
use crate::text::push_str;
use crate::hdlm::ast::{copy_kind, kind_key, kind_key_string, NodeKind};
use crate::hdlm::error::HdlmError;

verus! {

/// Result type of codebook operations.
pub type CodebookResult<T> = Result<T, HdlmError>;

/// Number of positional bases.
pub const CODEBOOK_POSITIONS: usize = 10;

/// The keys of `ks` in first-occurrence order, each once.
pub open spec fn dedup_keys(ks: Seq<Seq<char>>) -> Seq<Seq<char>>
    decreases ks.len(),
{
    if ks.len() == 0 {
        seq![]
    } else {
        let d = dedup_keys(ks.drop_last());
        if d.contains(ks.last()) {
            d
        } else {
            d.push(ks.last())
        }
    }
}

/// The keys of a family of node kinds.
pub open spec fn kind_keys(kinds: Seq<NodeKind>) -> Seq<Seq<char>> {
    kinds.map_values(|k: NodeKind| kind_key(k))
}

/// The keys of a list of keyed vectors.
pub open spec fn entry_keys(entries: Seq<(String, BipolarVector)>) -> Seq<Seq<char>> {
    entries.map_values(|e: (String, BipolarVector)| e.0@)
}

/// The least Hamming distance from `hv` to the first `n` (at least one)
/// of `bases`.
pub open spec fn min_distance_upto(bases: Seq<Seq<bool>>, hv: Seq<bool>, n: int) -> nat
    decreases n,
{
    if n <= 1 {
        hamming_seq(hv, bases[0])
    } else {
        let m = min_distance_upto(bases, hv, n - 1);
        let d = hamming_seq(hv, bases[n - 1]);
        if d < m {
            d
        } else {
            m
        }
    }
}

/// The first of the first `n` (at least one) of `bases` nearest to `hv`.
pub open spec fn nearest_upto(bases: Seq<Seq<bool>>, hv: Seq<bool>, n: int) -> int
    decreases n,
{
    if n <= 1 {
        0
    } else {
        let k = nearest_upto(bases, hv, n - 1);
        if hamming_seq(hv, bases[n - 1]) < hamming_seq(hv, bases[k]) {
            n - 1
        } else {
            k
        }
    }
}

/// The nearest of the first `n` bases is one of them.
pub proof fn lemma_nearest_in_range(bases: Seq<Seq<bool>>, hv: Seq<bool>, n: int)
    requires
        n >= 1,
    ensures
        0 <= nearest_upto(bases, hv, n) < n,
    decreases n,
{
    if n > 1 {
        lemma_nearest_in_range(bases, hv, n - 1);
    }
}

/// Item memory of the language model.
pub struct HdlmCodebook {
    kind_bases: Vec<(String, BipolarVector)>,
    kinds: Vec<NodeKind>,
    pos_bases: Vec<BipolarVector>,
}

impl HdlmCodebook {
    #[verifier::type_invariant]
    spec fn inv(&self) -> bool {
        &&& self.pos_bases@.len() == CODEBOOK_POSITIONS
        &&& forall|i: int| 0 <= i < self.pos_bases@.len() ==> (#[trigger] self.pos_bases@[i])@.len()
            == HD_DIMENSIONS
        &&& self.kinds@.len() == self.kind_bases@.len()
        &&& forall|i: int| 0 <= i < self.kinds@.len() ==> kind_key(#[trigger] self.kinds@[i]) == self.kind_bases@[i].0@
        &&& forall|i: int| 0 <= i < self.kind_bases@.len() ==> (#[trigger] self.kind_bases@[i]).1@.len()
            == HD_DIMENSIONS
        &&& forall|i: int, j: int|
            0 <= i < j < self.kind_bases@.len() ==> (#[trigger] self.kind_bases@[i]).0@
                != (#[trigger] self.kind_bases@[j]).0@
    }

    /// The keys that have a base, in insertion order.
    pub closed spec fn keys(&self) -> Seq<Seq<char>> {
        entry_keys(self.kind_bases@)
    }

    /// The base stored under the `i`-th key.
    pub closed spec fn base_at(&self, i: int) -> Seq<bool> {
        self.kind_bases@[i].1@
    }

    /// The positional bases.
    pub closed spec fn positions(&self) -> Seq<Seq<bool>> {
        self.pos_bases@.map_values(|v: BipolarVector| v@)
    }

    /// A codebook with one fresh random base per distinct kind of `kinds`
    /// and ten fresh positional bases.
    pub fn new(kinds: &[NodeKind]) -> (r: CodebookResult<Self>)
        ensures
            r matches Ok(cb) && cb.keys() == dedup_keys(kind_keys(kinds@)) && cb.positions().len()
                == CODEBOOK_POSITIONS,
    {
        let mut kind_bases: Vec<(String, BipolarVector)> = Vec::new();
        let mut kind_list: Vec<NodeKind> = Vec::new();
        let mut i: usize = 0;
        while i < kinds.len()
            invariant
                i <= kinds@.len(),
                kind_list@.len() == kind_bases@.len(),
                forall|a: int| 0 <= a < kind_list@.len() ==> kind_key(#[trigger] kind_list@[a]) == kind_bases@[a].0@,
                entry_keys(kind_bases@) == dedup_keys(
                    kind_keys(kinds@).take(i as int),
                ),
                forall|a: int| 0 <= a < kind_bases@.len() ==> (#[trigger] kind_bases@[a]).1@.len()
                    == HD_DIMENSIONS,
                forall|a: int, b: int|
                    0 <= a < b < kind_bases@.len() ==> (#[trigger] kind_bases@[a]).0@
                        != (#[trigger] kind_bases@[b]).0@,
            decreases kinds@.len() - i,
        {
            let key = kind_key_string(&kinds[i]);
            let ghost ks = entry_keys(kind_bases@);
            assert(kind_keys(kinds@).take(i as int + 1).drop_last() =~= kind_keys(kinds@).take(
                i as int,
            ));
            let found = Self::position_of(&kind_bases, &key);
            if found.is_none() {
                let v = match BipolarVector::new_random() {
                    Ok(v) => v,
                    Err(_) => {
                        return Err(
                            HdlmError::Tier1GenerationFailed {
                                reason: String::from_str("VSA initialization failed"),
                            },
                        );
                    },
                };
                let ghost kv = key@;
                proof {
                    assert forall|a: int| 0 <= a < kind_bases@.len() implies (#[trigger] kind_bases@[a]).0@
                        != kv by {
                        assert(ks[a] == kind_bases@[a].0@);
                    }
                }
                kind_bases.push((key, v));
                kind_list.push(copy_kind(&kinds[i]));
                assert(entry_keys(kind_bases@) =~= ks.push(kv));
            } else {
                let j = found.unwrap();
                assert(ks[j as int] == key@);
                assert(ks.contains(key@));
            }
            i = i + 1;
        }
        assert(kind_keys(kinds@).take(kinds@.len() as int) =~= kind_keys(kinds@));
        let mut pos_bases: Vec<BipolarVector> = Vec::new();
        let mut p: usize = 0;
        while p < CODEBOOK_POSITIONS
            invariant
                p <= CODEBOOK_POSITIONS,
                pos_bases@.len() == p,
                forall|a: int| 0 <= a < p ==> (#[trigger] pos_bases@[a])@.len() == HD_DIMENSIONS,
            decreases CODEBOOK_POSITIONS - p,
        {
            let v = match BipolarVector::new_random() {
                Ok(v) => v,
                Err(_) => {
                    return Err(
                        HdlmError::Tier1GenerationFailed {
                            reason: String::from_str("VSA initialization failed"),
                        },
                    );
                },
            };
            pos_bases.push(v);
            p = p + 1;
        }
        Ok(HdlmCodebook { kind_bases, kinds: kind_list, pos_bases })
    }

    /// Index of the entry stored under `key`, if any.
    fn position_of(entries: &Vec<(String, BipolarVector)>, key: &String) -> (r: Option<usize>)
        ensures
            match r {
                Some(i) => i < entries@.len() && entries@[i as int].0@ == key@,
                None => !entry_keys(entries@).contains(key@),
            },
    {
        let mut i: usize = 0;
        while i < entries.len()
            invariant
                i <= entries@.len(),
                forall|j: int| 0 <= j < i ==> (#[trigger] entries@[j]).0@ != key@,
            decreases entries@.len() - i,
        {
            if entries[i].0 == *key {
                return Some(i);
            }
            i = i + 1;
        }
        proof {
            let ks = entry_keys(entries@);
            assert forall|j: int| 0 <= j < ks.len() implies ks[j] != key@ by {
                assert(entries@[j].0@ != key@);
            }
        }
        None
    }

    /// The base of a node kind, if the codebook was built with that kind.
    pub fn get_kind_base(&self, kind: &NodeKind) -> (r: Option<&BipolarVector>)
        ensures
            self.keys().contains(kind_key(*kind)) ==> (r matches Some(v) && exists|i: int|
                0 <= i < self.keys().len() && self.keys()[i] == kind_key(*kind) && v@
                    == self.base_at(i)),
            !self.keys().contains(kind_key(*kind)) ==> r is None,
    {
        let key = Self::kind_to_key(kind);
        match Self::position_of(&self.kind_bases, &key) {
            Some(i) => {
                assert(self.keys()[i as int] == kind_key(*kind));
                assert(self.base_at(i as int) == self.kind_bases@[i as int].1@);
                Some(&self.kind_bases[i].1)
            },
            None => None,
        }
    }

    /// The positional base at a child index, if there is one.
    pub fn get_pos_base(&self, index: usize) -> (r: Option<&BipolarVector>)
        ensures
            index < CODEBOOK_POSITIONS ==> (r matches Some(v) && v@ == self.positions()[index as int]
                && v@.len() == HD_DIMENSIONS),
            index >= CODEBOOK_POSITIONS ==> r is None,
    {
        proof {
            use_type_invariant(self);
        }
        if index < self.pos_bases.len() {
            Some(&self.pos_bases[index])
        } else {
            None
        }
    }

    /// The base vectors, in the order of `keys`.
    pub closed spec fn bases(&self) -> Seq<Seq<bool>> {
        self.kind_bases@.map_values(|e: (String, BipolarVector)| e.1@)
    }

    /// The node kinds that have a base, in the order of `keys`.
    pub closed spec fn kinds(&self) -> Seq<NodeKind> {
        self.kinds@
    }

    /// The node kind whose base is nearest to `hv` (the first such kind
    /// when several are equally near), with the Hamming distance to that
    /// base (the highest cosine similarity). An empty codebook, or a vector
    /// of another dimension than the bases, is refused.
    pub fn identify_kind(&self, hv: &BipolarVector) -> (r: CodebookResult<(NodeKind, usize)>)
        ensures
            self.keys().len() == 0 ==> (r matches Err(HdlmError::Tier1GenerationFailed { reason })
                && reason@ == "IdentifyKind: Codebook is empty"@),
            self.keys().len() > 0 && hv@.len() != HD_DIMENSIONS ==> (r matches Err(
                HdlmError::Tier1GenerationFailed { reason },
            ) && reason@ == "Similarity check failed: "@ + HdcError::DimensionMismatch {
                expected: hv@.len() as usize,
                actual: HD_DIMENSIONS,
            }.message_spec()),
            self.keys().len() > 0 && hv@.len() == HD_DIMENSIONS ==> (r matches Ok((kind, d))
                && kind == self.kinds()[nearest_upto(self.bases(), hv@, self.keys().len() as int)]
                && d == hamming_seq(hv@, self.bases()[nearest_upto(self.bases(), hv@, self.keys().len() as int)])
                && d == min_distance_upto(self.bases(), hv@, self.keys().len() as int)),
            self.keys().len() > 0 ==> self.kinds().len() == self.keys().len()
                && 0 <= nearest_upto(self.bases(), hv@, self.keys().len() as int) < self.keys().len()
                && kind_key(self.kinds()[nearest_upto(self.bases(), hv@, self.keys().len() as int)])
                == self.keys()[nearest_upto(self.bases(), hv@, self.keys().len() as int)],
    {
        proof {
            use_type_invariant(self);
        }
        let ghost bs = self.bases();
        if self.kind_bases.len() == 0 {
            return Err(HdlmError::Tier1GenerationFailed { reason: String::from_str("IdentifyKind: Codebook is empty") });
        }
        assert(bs[0] == self.kind_bases@[0].1@);
        proof {
            lemma_nearest_in_range(bs, hv@, bs.len() as int);
            let k = nearest_upto(bs, hv@, bs.len() as int);
            assert(self.keys()[k] == self.kind_bases@[k].0@);
            lemma_hamming_bounded(hv@, bs[0], hv@.len() as int);
        }
        let mut best: usize = match hv.hamming_distance(&self.kind_bases[0].1) {
            Ok(d) => d,
            Err(e) => {
                let mut out: Vec<char> = Vec::new();
                push_str(&mut out, "Similarity check failed: ");
                let m = e.message();
                push_str(&mut out, m.as_str());
                return Err(HdlmError::Tier1GenerationFailed { reason: crate::text::string_from(out.as_slice()) });
            },
        };
        let mut best_i: usize = 0;
        let mut i: usize = 1;
        while i < self.kind_bases.len()
            invariant
                1 <= i <= self.kind_bases@.len(),
                best_i < i,
                best_i as int == nearest_upto(bs, hv@, i as int),
                best == hamming_seq(hv@, bs[best_i as int]),
                bs == self.bases(),
                bs.len() == self.kind_bases@.len(),
                hv@.len() == HD_DIMENSIONS,
                forall|a: int| 0 <= a < self.kind_bases@.len() ==> (#[trigger] self.kind_bases@[a]).1@.len()
                    == HD_DIMENSIONS,
                best == min_distance_upto(bs, hv@, i as int),
            decreases self.kind_bases@.len() - i,
        {
            assert(bs[i as int] == self.kind_bases@[i as int].1@);
            proof {
                lemma_hamming_bounded(hv@, bs[i as int], hv@.len() as int);
            }
            let d = match hv.hamming_distance(&self.kind_bases[i].1) {
                Ok(d) => d,
                Err(_) => best,
            };
            if d < best {
                best = d;
                best_i = i;
            }
            i = i + 1;
        }
        assert(self.keys()[best_i as int] == self.kind_bases@[best_i as int].0@);
        Ok((copy_kind(&self.kinds[best_i]), best))
    }

    /// The key of a node kind.
    fn kind_to_key(kind: &NodeKind) -> (r: String)
        ensures
            r@ == kind_key(*kind),
    {
        kind_key_string(kind)
    }
}

} // verus!
