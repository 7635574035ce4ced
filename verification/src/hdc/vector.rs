//! Bipolar hypervectors: 10,000 dimensions, one bit per dimension
//! (`true` and `false` standing for the two poles).
use vstd::prelude::*;
use vstd::arithmetic::div_mod::{lemma_fundamental_div_mod_converse, lemma_add_mod_noop, lemma_mod_add_multiples_vanish, lemma_mod_sub_multiples_vanish, lemma_small_mod};
use crate::hdc::error::HdcError;
use crate::hdc::rng::{chacha20_stream, chacha20_words, random_bits};

verus! {

/// Dimensionality of every hypervector the library draws.
pub const HD_DIMENSIONS: usize = 10000;

/// Number of 64-bit words a seeded vector is cut from (ceil(10000 / 64)).
pub const SEED_WORDS: usize = 157;

/// A bipolar hypervector, one bit per dimension.
#[derive(Debug, Clone, PartialEq, Eq)]
pub struct BipolarVector {
    pub data: Vec<bool>,
}

impl View for BipolarVector {
    type V = Seq<bool>;

    open spec fn view(&self) -> Seq<bool> {
        self.data@
    }
}

// ---------------------------------------------------------------- model

/// Binding: dimension-wise XOR.
pub open spec fn bind_seq(a: Seq<bool>, b: Seq<bool>) -> Seq<bool> {
    Seq::new(a.len(), |i: int| a[i] != b[i])
}

/// Cyclic left shift by `k` positions.
pub open spec fn permute_seq(a: Seq<bool>, k: nat) -> Seq<bool> {
    Seq::new(a.len(), |i: int| a[(i + k) % (a.len() as int)])
}

/// Number of the first `n` dimensions on which `a` and `b` differ.
pub open spec fn hamming_upto(a: Seq<bool>, b: Seq<bool>, n: int) -> nat
    decreases n,
{
    if n <= 0 {
        0
    } else {
        hamming_upto(a, b, n - 1) + if a[n - 1] != b[n - 1] { 1nat } else { 0nat }
    }
}

/// Hamming distance of two vectors of equal dimension.
pub open spec fn hamming_seq(a: Seq<bool>, b: Seq<bool>) -> nat {
    hamming_upto(a, b, a.len() as int)
}

/// Among the first `m` vectors, how many have bit `d` set.
pub open spec fn count_true(vs: Seq<Seq<bool>>, d: int, m: int) -> nat
    decreases m,
{
    if m <= 0 {
        0
    } else {
        count_true(vs, d, m - 1) + if vs[m - 1][d] { 1nat } else { 0nat }
    }
}

/// Majority vote of a non-empty family of vectors: a bit is set when more
/// than half of the vectors set it (ties give `false`).
pub open spec fn bundle_seq(vs: Seq<Seq<bool>>) -> Seq<bool> {
    Seq::new(vs[0].len(), |d: int| 2 * count_true(vs, d, vs.len() as int) > vs.len())
}

/// The views of a slice of vector references.
pub open spec fn vec_views(vs: Seq<&BipolarVector>) -> Seq<Seq<bool>> {
    vs.map_values(|v: &BipolarVector| v@)
}

/// Every vector of the family has the dimension of the first one.
pub open spec fn same_dims(vs: Seq<Seq<bool>>) -> bool {
    forall|j: int| 0 <= j < vs.len() ==> #[trigger] vs[j].len() == vs[0].len()
}

/// Bit `b` of the word `w`.
pub open spec fn word_bit(w: u64, b: u64) -> bool {
    (w >> b) & 1u64 == 1u64
}

/// The vector drawn from `seed`: bit `d` is bit `d % 64` of word `d / 64`
/// of the seeded ChaCha20 stream.
pub open spec fn seed_bits(seed: u64) -> Seq<bool> {
    Seq::new(
        HD_DIMENSIONS as nat,
        |d: int| word_bit(chacha20_words(seed, SEED_WORDS as nat)[d / 64], (d % 64) as u64),
    )
}

proof fn lemma_shift_index(i: int, shift: int, n: int)
    requires
        0 <= i < n,
        0 <= shift,
    ensures
        0 <= shift % n < n,
        (i + shift) % n == (if i < n - shift % n { i + shift % n } else { i + shift % n - n }),
{
    lemma_add_mod_noop(i, shift, n);
    lemma_small_mod(i as nat, n as nat);
    let s = shift % n;
    assert(0 <= s < n);
    if i + s < n {
        lemma_small_mod((i + s) as nat, n as nat);
    } else {
        lemma_mod_sub_multiples_vanish(i + s, n);
        lemma_small_mod((i + s - n) as nat, n as nat);
    }
}

impl BipolarVector {
    /// Number of dimensions.
    pub fn dim(&self) -> (r: usize)
        ensures
            r == self@.len(),
    {
        self.data.len()
    }

    /// A copy holding the same bits.
    pub fn copied(&self) -> (r: BipolarVector)
        ensures
            r@ == self@,
    {
        let mut data: Vec<bool> = Vec::new();
        let mut i: usize = 0;
        while i < self.data.len()
            invariant
                i <= self@.len(),
                data@ == self@.take(i as int),
            decreases self@.len() - i,
        {
            data.push(self.data[i]);
            assert(self@.take(i as int + 1) =~= self@.take(i as int).push(self@[i as int]));
            i = i + 1;
        }
        assert(self@.take(self@.len() as int) =~= self@);
        BipolarVector { data }
    }

    /// A fresh vector of `HD_DIMENSIONS` random bits from the thread's
    /// random generator.
    pub fn new_random() -> (r: Result<BipolarVector, HdcError>)
        ensures
            r matches Ok(v) && v@.len() == HD_DIMENSIONS,
    {
        Ok(BipolarVector { data: random_bits(HD_DIMENSIONS) })
    }

    /// The deterministic vector of `seed` (see `seed_bits`).
    pub fn from_seed(seed: u64) -> (r: BipolarVector)
        ensures
            r@ == seed_bits(seed),
            r@.len() == HD_DIMENSIONS,
    {
        let words = chacha20_stream(seed, SEED_WORDS);
        let mut data: Vec<bool> = Vec::new();
        let mut d: usize = 0;
        while d < HD_DIMENSIONS
            invariant
                d <= HD_DIMENSIONS,
                words@ == chacha20_words(seed, SEED_WORDS as nat),
                words@.len() == SEED_WORDS,
                data@ == seed_bits(seed).take(d as int),
            decreases HD_DIMENSIONS - d,
        {
            let w = words[d / 64];
            let b = (w >> ((d % 64) as u64)) & 1u64 == 1u64;
            data.push(b);
            assert(seed_bits(seed).take(d as int + 1) =~= seed_bits(seed).take(d as int).push(b));
            d = d + 1;
        }
        assert(seed_bits(seed).take(HD_DIMENSIONS as int) =~= seed_bits(seed));
        BipolarVector { data }
    }

    /// Wraps raw bits, which must number exactly `HD_DIMENSIONS`.
    pub fn from_bits(bits: Vec<bool>) -> (r: Result<BipolarVector, HdcError>)
        ensures
            bits@.len() == HD_DIMENSIONS ==> r == Ok::<BipolarVector, HdcError>(
                BipolarVector { data: bits },
            ),
            bits@.len() != HD_DIMENSIONS ==> r == Err::<BipolarVector, HdcError>(
                HdcError::DimensionMismatch { expected: HD_DIMENSIONS, actual: bits@.len() as usize },
            ),
    {
        if bits.len() == HD_DIMENSIONS {
            Ok(BipolarVector { data: bits })
        } else {
            let n = bits.len();
            Err(HdcError::DimensionMismatch { expected: HD_DIMENSIONS, actual: n })
        }
    }

    /// Binds two vectors of equal dimension (XOR).
    pub fn bind(&self, other: &BipolarVector) -> (r: Result<BipolarVector, HdcError>)
        ensures
            self@.len() == other@.len() ==> (r matches Ok(v) && v@ == bind_seq(self@, other@)),
            self@.len() != other@.len() ==> r == Err::<BipolarVector, HdcError>(
                HdcError::DimensionMismatch {
                    expected: self@.len() as usize,
                    actual: other@.len() as usize,
                },
            ),
    {
        if self.data.len() != other.data.len() {
            return Err(
                HdcError::DimensionMismatch { expected: self.data.len(), actual: other.data.len() },
            );
        }
        let n = self.data.len();
        let mut data: Vec<bool> = Vec::new();
        let mut i: usize = 0;
        while i < n
            invariant
                n == self@.len(),
                n == other@.len(),
                i <= n,
                data@ == bind_seq(self@, other@).take(i as int),
            decreases n - i,
        {
            let b = self.data[i] != other.data[i];
            data.push(b);
            assert(bind_seq(self@, other@).take(i as int + 1) =~= bind_seq(self@, other@).take(
                i as int,
            ).push(b));
            i = i + 1;
        }
        assert(bind_seq(self@, other@).take(n as int) =~= bind_seq(self@, other@));
        Ok(BipolarVector { data })
    }

    /// Cyclic left shift by `shift` positions; never fails.
    pub fn permute(&self, shift: usize) -> (r: Result<BipolarVector, HdcError>)
        ensures
            r matches Ok(v) && v@ == permute_seq(self@, shift as nat),
    {
        let n = self.data.len();
        if n == 0 {
            let data: Vec<bool> = Vec::new();
            assert(data@ =~= permute_seq(self@, shift as nat));
            return Ok(BipolarVector { data });
        }
        let s = shift % n;
        let mut data: Vec<bool> = Vec::new();
        let mut i: usize = 0;
        while i < n
            invariant
                n == self@.len(),
                n > 0,
                s == shift % n,
                i <= n,
                data@ == permute_seq(self@, shift as nat).take(i as int),
            decreases n - i,
        {
            proof {
                lemma_shift_index(i as int, shift as int, n as int);
            }
            let idx = if i < n - s {
                i + s
            } else {
                i - (n - s)
            };
            let b = self.data[idx];
            data.push(b);
            assert(permute_seq(self@, shift as nat).take(i as int + 1) =~= permute_seq(
                self@,
                shift as nat,
            ).take(i as int).push(b));
            i = i + 1;
        }
        assert(permute_seq(self@, shift as nat).take(n as int) =~= permute_seq(self@, shift as nat));
        Ok(BipolarVector { data })
    }

    /// Number of dimensions on which two vectors of equal dimension differ.
    pub fn hamming_distance(&self, other: &BipolarVector) -> (r: Result<usize, HdcError>)
        ensures
            self@.len() == other@.len() ==> r == Ok::<usize, HdcError>(
                hamming_seq(self@, other@) as usize,
            ),
            self@.len() != other@.len() ==> r == Err::<usize, HdcError>(
                HdcError::DimensionMismatch {
                    expected: self@.len() as usize,
                    actual: other@.len() as usize,
                },
            ),
    {
        if self.data.len() != other.data.len() {
            return Err(
                HdcError::DimensionMismatch { expected: self.data.len(), actual: other.data.len() },
            );
        }
        let n = self.data.len();
        let mut h: usize = 0;
        let mut i: usize = 0;
        while i < n
            invariant
                n == self@.len(),
                n == other@.len(),
                i <= n,
                h == hamming_upto(self@, other@, i as int),
                h <= i,
            decreases n - i,
        {
            if self.data[i] != other.data[i] {
                h = h + 1;
            }
            i = i + 1;
        }
        Ok(h)
    }

    /// Majority-vote bundle of a non-empty family of vectors of equal
    /// dimension.
    pub fn bundle(vectors: &[&BipolarVector]) -> (r: Result<BipolarVector, HdcError>)
        ensures
            vectors@.len() == 0 ==> r == Err::<BipolarVector, HdcError>(HdcError::EmptyBundle),
            vectors@.len() > 0 && same_dims(vec_views(vectors@)) ==> (r matches Ok(v) && v@
                == bundle_seq(vec_views(vectors@))),
            vectors@.len() > 0 && !same_dims(vec_views(vectors@)) ==> exists|j: int|
                #![trigger vectors@[j]]
                0 < j < vectors@.len() && vectors@[j]@.len() != vectors@[0]@.len() && (forall|
                    k: int,
                |
                    0 <= k < j ==> #[trigger] vectors@[k]@.len() == vectors@[0]@.len()) && r
                    == Err::<BipolarVector, HdcError>(
                    HdcError::DimensionMismatch {
                        expected: vectors@[0]@.len() as usize,
                        actual: vectors@[j]@.len() as usize,
                    },
                ),
    {
        let m = vectors.len();
        if m == 0 {
            return Err(HdcError::EmptyBundle);
        }
        let ghost vs = vec_views(vectors@);
        let n = vectors[0].data.len();
        let mut j: usize = 0;
        while j < m
            invariant
                m == vectors@.len(),
                vs == vec_views(vectors@),
                n == vectors@[0]@.len(),
                j <= m,
                forall|k: int| 0 <= k < j ==> #[trigger] vectors@[k]@.len() == n,
            decreases m - j,
        {
            let len_j = vectors[j].data.len();
            if len_j != n {
                proof {
                    assert(vs[j as int].len() != vs[0].len());
                }
                return Err(HdcError::DimensionMismatch { expected: n, actual: len_j });
            }
            j = j + 1;
        }
        assert(same_dims(vs)) by {
            assert forall|k: int| 0 <= k < vs.len() implies #[trigger] vs[k].len() == vs[0].len() by {
                assert(vectors@[k]@.len() == n);
            }
        }
        let mut counts: Vec<usize> = Vec::new();
        let mut d: usize = 0;
        while d < n
            invariant
                d <= n,
                counts@.len() == d,
                forall|e: int| 0 <= e < d ==> counts@[e] == 0,
            decreases n - d,
        {
            counts.push(0);
            d = d + 1;
        }
        let mut j: usize = 0;
        while j < m
            invariant
                m == vectors@.len(),
                vs == vec_views(vectors@),
                n == vectors@[0]@.len(),
                forall|k: int| 0 <= k < m ==> #[trigger] vectors@[k]@.len() == n,
                j <= m,
                counts@.len() == n,
                forall|e: int| 0 <= e < n ==> #[trigger] counts@[e] == count_true(vs, e, j as int),
                forall|e: int| 0 <= e < n ==> #[trigger] counts@[e] <= j,
            decreases m - j,
        {
            let v = vectors[j];
            let mut e: usize = 0;
            while e < n
                invariant
                    m == vectors@.len(),
                    vs == vec_views(vectors@),
                    j < m,
                    v@ == vs[j as int],
                    v@.len() == n,
                    e <= n,
                    counts@.len() == n,
                    forall|x: int| 0 <= x < e ==> #[trigger] counts@[x] == count_true(vs, x, j + 1),
                    forall|x: int| e <= x < n ==> #[trigger] counts@[x] == count_true(vs, x, j as int),
                    forall|x: int| 0 <= x < e ==> #[trigger] counts@[x] <= j + 1,
                    forall|x: int| e <= x < n ==> #[trigger] counts@[x] <= j,
                decreases n - e,
            {
                if v.data[e] {
                    let c = counts[e];
                    counts.set(e, c + 1);
                }
                e = e + 1;
            }
            j = j + 1;
        }
        let mut data: Vec<bool> = Vec::new();
        let mut d: usize = 0;
        while d < n
            invariant
                m == vs.len(),
                n == vs[0].len(),
                d <= n,
                counts@.len() == n,
                forall|e: int| 0 <= e < n ==> #[trigger] counts@[e] == count_true(vs, e, m as int),
                forall|e: int| 0 <= e < n ==> #[trigger] counts@[e] <= m,
                data@ == bundle_seq(vs).take(d as int),
            decreases n - d,
        {
            let c = counts[d];
            let b = c > m - c;
            data.push(b);
            assert(bundle_seq(vs).take(d as int + 1) =~= bundle_seq(vs).take(d as int).push(b));
            d = d + 1;
        }
        assert(bundle_seq(vs).take(n as int) =~= bundle_seq(vs));
        Ok(BipolarVector { data })
    }
}


// ---------------------------------------------------------------- laws

/// Binding is self-inverse: binding `a` twice gives back `b`.
pub proof fn lemma_bind_self_inverse(a: Seq<bool>, b: Seq<bool>)
    requires
        a.len() == b.len(),
    ensures
        bind_seq(a, bind_seq(a, b)) == b,
{
    assert(bind_seq(a, bind_seq(a, b)) =~= b);
}

/// Binding is commutative.
pub proof fn lemma_bind_commutative(a: Seq<bool>, b: Seq<bool>)
    requires
        a.len() == b.len(),
    ensures
        bind_seq(a, b) == bind_seq(b, a),
{
    assert(bind_seq(a, b) =~= bind_seq(b, a));
}

/// Binding, permuting and bundling keep the dimension.
pub proof fn lemma_operations_keep_dimension(a: Seq<bool>, b: Seq<bool>, k: nat, vs: Seq<Seq<bool>>)
    requires
        vs.len() > 0,
    ensures
        bind_seq(a, b).len() == a.len(),
        permute_seq(a, k).len() == a.len(),
        bundle_seq(vs).len() == vs[0].len(),
{
}

/// Permuting by zero is the identity.
pub proof fn lemma_permute_zero(a: Seq<bool>)
    ensures
        permute_seq(a, 0) == a,
{
    assert forall|i: int| 0 <= i < a.len() implies #[trigger] permute_seq(a, 0)[i] == a[i] by {
        lemma_small_mod(i as nat, a.len());
    }
    assert(permute_seq(a, 0) =~= a);
}

/// Permuting by the full dimension is the identity (the shift is cyclic).
pub proof fn lemma_permute_full_cycle(a: Seq<bool>)
    ensures
        permute_seq(a, a.len()) == a,
{
    assert forall|i: int| 0 <= i < a.len() implies #[trigger] permute_seq(a, a.len())[i] == a[i] by {
        lemma_mod_add_multiples_vanish(i, a.len() as int);
        lemma_small_mod(i as nat, a.len());
    }
    assert(permute_seq(a, a.len()) =~= a);
}

/// Shifting by `k` and then by `n - k` gives back the vector.
pub proof fn lemma_permute_inverse(a: Seq<bool>, k: nat)
    requires
        k <= a.len(),
    ensures
        permute_seq(permute_seq(a, k), (a.len() - k) as nat) == a,
{
    if k == 0 {
        lemma_permute_zero(a);
        lemma_permute_full_cycle(a);
    } else if k == a.len() {
        lemma_permute_full_cycle(a);
        lemma_permute_zero(a);
    } else {
        lemma_permute_inverse_mid(a, k);
    }
}

proof fn lemma_permute_inverse_mid(a: Seq<bool>, k: nat)
    requires
        0 < k < a.len(),
    ensures
        permute_seq(permute_seq(a, k), (a.len() - k) as nat) == a,
{
    let n = a.len() as int;
    let p = permute_seq(a, k);
    assert forall|i: int| 0 <= i < n implies #[trigger] permute_seq(p, (n - k) as nat)[i]
        == a[i] by {
        lemma_permute_inverse_at(a, k as int, i);
    }
    assert(permute_seq(p, (n - k) as nat) =~= a);
}

proof fn lemma_permute_inverse_at(a: Seq<bool>, k: int, i: int)
    requires
        0 < k < a.len(),
        0 <= i < a.len(),
    ensures
        permute_seq(permute_seq(a, k as nat), (a.len() - k) as nat)[i] == a[i],
{
    let n = a.len() as int;
    let y = if i >= k { i - k } else { i + n - k };
    lemma_fundamental_div_mod_converse(i + (n - k), n, if i >= k { 1 } else { 0 }, y);
    assert((i + (n - k)) % n == y);
    lemma_fundamental_div_mod_converse(y + k, n, if i >= k { 0 } else { 1 }, i);
    assert((y + k) % n == i);
}

proof fn lemma_hamming_upto_symmetric(a: Seq<bool>, b: Seq<bool>, n: int)
    ensures
        hamming_upto(a, b, n) == hamming_upto(b, a, n),
    decreases n,
{
    if n > 0 {
        lemma_hamming_upto_symmetric(a, b, n - 1);
    }
}

proof fn lemma_hamming_upto_zero_iff(a: Seq<bool>, b: Seq<bool>, n: int)
    requires
        0 <= n <= a.len(),
        n <= b.len(),
    ensures
        hamming_upto(a, b, n) == 0 <==> forall|i: int| 0 <= i < n ==> a[i] == b[i],
    decreases n,
{
    if n > 0 {
        lemma_hamming_upto_zero_iff(a, b, n - 1);
    }
}

/// Hamming distance is symmetric.
pub proof fn lemma_hamming_symmetric(a: Seq<bool>, b: Seq<bool>)
    requires
        a.len() == b.len(),
    ensures
        hamming_seq(a, b) == hamming_seq(b, a),
{
    lemma_hamming_upto_symmetric(a, b, a.len() as int);
}

/// Two vectors of equal dimension are at distance zero exactly when equal;
/// in particular every vector is at distance zero from itself.
pub proof fn lemma_hamming_zero_iff_equal(a: Seq<bool>, b: Seq<bool>)
    requires
        a.len() == b.len(),
    ensures
        hamming_seq(a, b) == 0 <==> a == b,
        hamming_seq(a, a) == 0,
{
    lemma_hamming_upto_zero_iff(a, b, a.len() as int);
    lemma_hamming_upto_zero_iff(a, a, a.len() as int);
    if hamming_seq(a, b) == 0 {
        assert(a =~= b);
    }
}

/// Hamming distance never exceeds the dimension.
pub proof fn lemma_hamming_bounded(a: Seq<bool>, b: Seq<bool>, n: int)
    requires
        0 <= n,
    ensures
        hamming_upto(a, b, n) <= n,
    decreases n,
{
    if n > 0 {
        lemma_hamming_bounded(a, b, n - 1);
    }
}

/// Bundling a single vector gives that vector back.
pub proof fn lemma_bundle_single(a: Seq<bool>)
    ensures
        bundle_seq(seq![a]) == a,
{
    let vs = seq![a];
    assert forall|d: int| 0 <= d < a.len() implies #[trigger] bundle_seq(vs)[d] == a[d] by {
        assert(count_true(vs, d, 0) == 0);
        assert(count_true(vs, d, 1) == count_true(vs, d, 0) + if vs[0][d] { 1nat } else { 0nat });
    }
    assert(bundle_seq(vs) =~= a);
}


/// Binding twice with the same key gives back the vector.
pub proof fn lemma_bind_cancel_right(a: Seq<bool>, k: Seq<bool>)
    requires
        a.len() == k.len(),
    ensures
        bind_seq(bind_seq(a, k), k) == a,
{
    assert(bind_seq(bind_seq(a, k), k) =~= a);
}

} // verus!
