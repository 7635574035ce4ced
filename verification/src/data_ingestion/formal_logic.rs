//! Theorem-proof pairs read from Lean sources, bound into a hypervector
//! memory.
use vstd::prelude::*;
use crate::hdc::vector::{BipolarVector, HD_DIMENSIONS, bind_seq, bundle_seq, vec_views, same_dims};
use crate::hdc::error::HdcError;
use crate::hdc::role_binding::{concept_vector, concept_bits};
use crate::text::{trim_str, trim_seq, starts_with_str, starts_with_seq, string_from, chars_of};

verus! {

/// The theorem-proof pairs of a Lean source, in order: a line that starts
/// (after trimming) with "theorem" is the pending theorem; a later line
/// that starts with "proof" closes the pending theorem, if any.
pub open spec fn lean_pairs(lines: Seq<Seq<char>>, n: int) -> (Seq<char>, Seq<(Seq<char>, Seq<char>)>)
    decreases n,
{
    if n <= 0 {
        (seq![], seq![])
    } else {
        let (cur, pairs) = lean_pairs(lines, n - 1);
        let line = lines[n - 1];
        let t = trim_seq(line);
        if starts_with_seq(t, "theorem"@) {
            (line, pairs)
        } else if starts_with_seq(t, "proof"@) && cur.len() > 0 {
            (seq![], pairs.push((cur, line)))
        } else {
            (cur, pairs)
        }
    }
}

/// The theorem-proof pairs of the given lines (see `lean_pairs`).
pub fn theorem_proof_pairs(lines: &[String]) -> (r: Vec<(String, String)>)
    ensures
        r@.map_values(|p: (String, String)| (p.0@, p.1@)) == lean_pairs(
            lines@.map_values(|l: String| l@),
            lines@.len() as int,
        ).1,
{
    let ghost ls = lines@.map_values(|l: String| l@);
    let mut out: Vec<(String, String)> = Vec::new();
    let mut cur: Vec<char> = Vec::new();
    let mut i: usize = 0;
    while i < lines.len()
        invariant
            i <= lines@.len(),
            ls == lines@.map_values(|l: String| l@),
            (cur@, out@.map_values(|p: (String, String)| (p.0@, p.1@))) == lean_pairs(ls, i as int),
        decreases lines@.len() - i,
    {
        assert(ls[i as int] == lines@[i as int]@);
        let t = trim_str(lines[i].as_str());
        let ghost before = out@;
        if starts_with_str(t.as_slice(), "theorem") {
            cur = chars_of(lines[i].as_str());
        } else if starts_with_str(t.as_slice(), "proof") && cur.len() > 0 {
            let th = string_from(cur.as_slice());
            let pr = string_from(chars_of(lines[i].as_str()).as_slice());
            let ghost pair = (th@, pr@);
            out.push((th, pr));
            cur = Vec::new();
            assert(out@.map_values(|p: (String, String)| (p.0@, p.1@)) =~= before.map_values(
                |p: (String, String)| (p.0@, p.1@),
            ).push(pair));
        }
        i = i + 1;
    }
    out
}

/// The memory after binding each theorem to its proof and bundling the
/// binding into the memory, pair after pair.
pub open spec fn absorbed(mem: Seq<bool>, pairs: Seq<(Seq<char>, Seq<char>)>) -> Seq<bool>
    decreases pairs.len(),
{
    if pairs.len() == 0 {
        mem
    } else {
        let prev = absorbed(mem, pairs.drop_last());
        let b = bind_seq(concept_bits(pairs.last().0), concept_bits(pairs.last().1));
        bundle_seq(seq![prev, b])
    }
}

/// A hypervector memory of theorem-proof associations.
pub struct FormalLogicIngestor {
    pub memory: BipolarVector,
}

impl FormalLogicIngestor {
    /// An ingestor over the given memory.
    pub fn new(memory: BipolarVector) -> (r: Self)
        ensures
            r.memory@ == memory@,
    {
        FormalLogicIngestor { memory }
    }

    /// Bind each theorem's concept vector to its proof's and bundle the
    /// binding into the memory; returns the number of pairs absorbed. A
    /// memory of another dimension cannot take a binding.
    pub fn absorb(&mut self, pairs: &[(String, String)]) -> (r: Result<usize, HdcError>)
        ensures
            (pairs@.len() == 0 || old(self).memory@.len() == HD_DIMENSIONS) ==> (r == Ok::<
                usize,
                HdcError,
            >(pairs@.len() as usize) && final(self).memory@ == absorbed(
                old(self).memory@,
                pairs@.map_values(|p: (String, String)| (p.0@, p.1@)),
            )),
            (pairs@.len() > 0 && old(self).memory@.len() != HD_DIMENSIONS) ==> (r == Err::<
                usize,
                HdcError,
            >(
                HdcError::DimensionMismatch {
                    expected: old(self).memory@.len() as usize,
                    actual: HD_DIMENSIONS,
                },
            ) && final(self).memory@ == old(self).memory@),
    {
        let ghost ps = pairs@.map_values(|p: (String, String)| (p.0@, p.1@));
        let ghost m0 = self.memory@;
        let mut i: usize = 0;
        while i < pairs.len()
            invariant
                i <= pairs@.len(),
                ps == pairs@.map_values(|p: (String, String)| (p.0@, p.1@)),
                m0 == old(self).memory@,
                i > 0 ==> m0.len() == HD_DIMENSIONS,
                self.memory@ == absorbed(m0, ps.take(i as int)),
                i > 0 ==> self.memory@.len() == HD_DIMENSIONS,
                i == 0 ==> self.memory@ == m0,
            decreases pairs@.len() - i,
        {
            assert(ps[i as int] == (pairs@[i as int].0@, pairs@[i as int].1@));
            let tv = concept_vector(pairs[i].0.as_str());
            let pv = concept_vector(pairs[i].1.as_str());
            proof {
                lemma_concept_len(pairs@[i as int].0@);
                lemma_concept_len(pairs@[i as int].1@);
            }
            let binding = match tv.bind(&pv) {
                Ok(b) => b,
                Err(e) => return Err(e),
            };
            let refs: Vec<&BipolarVector> = vec![&self.memory, &binding];
            let ghost views2 = seq![self.memory@, binding@];
            assert(vec_views(refs@) =~= views2);
            proof {
                if self.memory@.len() == HD_DIMENSIONS {
                    assert(same_dims(vec_views(refs@)));
                } else {
                    assert(binding@.len() == HD_DIMENSIONS);
                    assert(vec_views(refs@)[1].len() != vec_views(refs@)[0].len());
                    assert(!same_dims(vec_views(refs@)));
                }
            }
            match BipolarVector::bundle(refs.as_slice()) {
                Ok(v) => {
                    assert(ps.take(i as int + 1).drop_last() =~= ps.take(i as int));
                    self.memory = v;
                },
                Err(e) => {
                    proof {
                        let j = choose|j: int|
                            #![trigger refs@[j]]
                            0 < j < refs@.len() && refs@[j]@.len() != refs@[0]@.len() && (forall|
                                k: int,
                            |
                                0 <= k < j ==> #[trigger] refs@[k]@.len() == refs@[0]@.len()) && Err::<
                                BipolarVector,
                                HdcError,
                            >(e) == Err::<BipolarVector, HdcError>(
                                HdcError::DimensionMismatch {
                                    expected: refs@[0]@.len() as usize,
                                    actual: refs@[j]@.len() as usize,
                                },
                            );
                        assert(j == 1);
                    }
                    return Err(e);
                },
            }
            i = i + 1;
        }
        assert(ps.take(pairs@.len() as int) =~= ps);
        Ok(pairs.len())
    }
}

proof fn lemma_concept_len(k: Seq<char>)
    ensures
        concept_bits(k).len() == HD_DIMENSIONS,
{
}

} // verus!
