//! Precision tiers of hypervectors: the fast bipolar form and an exact
//! signed form that keeps values through binding.
use vstd::prelude::*;
use crate::hdc::error::HdcError;
use crate::hdc::vector::{bind_seq, BipolarVector, HD_DIMENSIONS};

verus! {

/// Signed form of bits: `true` stands for -1, `false` for +1.
pub open spec fn bits_to_signs(b: Seq<bool>) -> Seq<int> {
    Seq::new(b.len(), |i: int| if b[i] { -1int } else { 1int })
}

/// Sign clip back to bits: negative entries give `true`.
pub open spec fn signs_to_bits(s: Seq<int>) -> Seq<bool> {
    Seq::new(s.len(), |i: int| s[i] < 0)
}

/// Entry-wise product of two signed vectors.
pub open spec fn signs_product(a: Seq<int>, b: Seq<int>) -> Seq<int> {
    Seq::new(a.len(), |i: int| a[i] * b[i])
}

/// Exact signed hypervector over the 10 x 10 x 10 x 10 mode grid, held
/// uncompressed: one signed entry per dimension, lossless under binding.
#[derive(Debug)]
pub struct TensorTrain {
    values: Vec<i8>,
}

impl TensorTrain {
    #[verifier::type_invariant]
    spec fn inv(&self) -> bool {
        forall|i: int| 0 <= i < self.values@.len() ==> #[trigger] self.values@[i] == 1 || self.values@[i]
            == -1
    }

    /// The signed entries.
    pub closed spec fn entries(&self) -> Seq<int> {
        self.values@.map_values(|v: i8| v as int)
    }

    /// Exact form of a bipolar vector of full dimension; `None` for any
    /// other dimension (it does not fit the mode grid).
    pub fn from_bipolar(bv: &BipolarVector) -> (r: Option<TensorTrain>)
        ensures
            bv@.len() == HD_DIMENSIONS ==> (r matches Some(t) && t.entries() == bits_to_signs(bv@)),
            bv@.len() != HD_DIMENSIONS ==> r is None,
    {
        if bv.data.len() != HD_DIMENSIONS {
            return None;
        }
        let mut values: Vec<i8> = Vec::new();
        let mut i: usize = 0;
        while i < bv.data.len()
            invariant
                i <= bv@.len(),
                values@.len() == i,
                forall|j: int| 0 <= j < i ==> #[trigger] values@[j] == (if bv@[j] { -1i8 } else { 1i8 }),
            decreases bv@.len() - i,
        {
            values.push(if bv.data[i] { -1i8 } else { 1i8 });
            i = i + 1;
        }
        let t = TensorTrain { values };
        assert(t.entries() =~= bits_to_signs(bv@));
        Some(t)
    }

    /// Sign clip to a bipolar vector.
    pub fn to_bipolar(&self) -> (r: BipolarVector)
        ensures
            r@ == signs_to_bits(self.entries()),
    {
        let mut data: Vec<bool> = Vec::new();
        let mut i: usize = 0;
        while i < self.values.len()
            invariant
                i <= self.values@.len(),
                data@ == signs_to_bits(self.entries()).take(i as int),
            decreases self.values@.len() - i,
        {
            let b = self.values[i] < 0;
            data.push(b);
            assert(signs_to_bits(self.entries()).take(i as int + 1) =~= signs_to_bits(
                self.entries(),
            ).take(i as int).push(b));
            i = i + 1;
        }
        assert(signs_to_bits(self.entries()).take(self.values@.len() as int) =~= signs_to_bits(
            self.entries(),
        ));
        BipolarVector { data }
    }

    /// Exact binding: entry-wise product; `None` when the mode dimensions
    /// differ.
    pub fn bind(a: &TensorTrain, b: &TensorTrain) -> (r: Option<TensorTrain>)
        ensures
            a.entries().len() == b.entries().len() ==> (r matches Some(t) && t.entries()
                == signs_product(a.entries(), b.entries())),
            a.entries().len() != b.entries().len() ==> r is None,
    {
        proof {
            use_type_invariant(a);
            use_type_invariant(b);
        }
        if a.values.len() != b.values.len() {
            return None;
        }
        let n = a.values.len();
        let mut values: Vec<i8> = Vec::new();
        let mut i: usize = 0;
        while i < n
            invariant
                n == a.values@.len(),
                n == b.values@.len(),
                i <= n,
                values@.len() == i,
                forall|j: int| 0 <= j < n ==> #[trigger] a.values@[j] == 1 || a.values@[j] == -1,
                forall|j: int| 0 <= j < n ==> #[trigger] b.values@[j] == 1 || b.values@[j] == -1,
                forall|j: int| 0 <= j < i ==> #[trigger] values@[j] as int == a.values@[j]
                    * b.values@[j],
                forall|j: int| 0 <= j < i ==> #[trigger] values@[j] == 1 || values@[j] == -1,
            decreases n - i,
        {
            let x = a.values[i];
            let y = b.values[i];
            let p: i8 = if x == y { 1 } else { -1 };
            proof {
                assert(a.values@[i as int] == 1 || a.values@[i as int] == -1);
                if x == 1 {
                    assert(x as int * y as int == y as int);
                } else {
                    assert(x as int * y as int == -(y as int));
                }
            }
            values.push(p);
            i = i + 1;
        }
        let t = TensorTrain { values };
        assert(t.entries() =~= signs_product(a.entries(), b.entries()));
        Some(t)
    }
}

impl Clone for TensorTrain {
    fn clone(&self) -> (r: Self)
        ensures
            r.entries() == self.entries(),
    {
        proof {
            use_type_invariant(self);
        }
        let mut values: Vec<i8> = Vec::new();
        let mut i: usize = 0;
        while i < self.values.len()
            invariant
                i <= self.values@.len(),
                values@ == self.values@.take(i as int),
                forall|j: int| 0 <= j < self.values@.len() ==> #[trigger] self.values@[j] == 1
                    || self.values@[j] == -1,
            decreases self.values@.len() - i,
        {
            values.push(self.values[i]);
            assert(self.values@.take(i as int + 1) =~= self.values@.take(i as int).push(
                self.values@[i as int],
            ));
            i = i + 1;
        }
        assert(self.values@.take(self.values@.len() as int) =~= self.values@);
        TensorTrain { values }
    }
}

/// A hypervector in one of two precision tiers. Operations stay inside
/// one tier and refuse to mix them.
#[derive(Debug, Clone)]
pub enum Precision {
    /// Bipolar bits: fast, lossy after aggregation.
    Fast(BipolarVector),
    /// Exact signed entries: lossless under binding.
    Precise(TensorTrain),
}

impl Precision {
    /// Promotes a fast vector to the exact tier; already exact vectors are
    /// returned unchanged. Fails for a fast vector that is not of full
    /// dimension.
    pub fn promote(self) -> (r: Result<Self, HdcError>)
        ensures
            match self {
                Precision::Fast(bv) => if bv@.len() == HD_DIMENSIONS {
                    r matches Ok(Precision::Precise(t)) && t.entries() == bits_to_signs(bv@)
                } else {
                    r matches Err(HdcError::InitializationFailed { reason }) && reason@
                        == "TT from_bipolar failed"@
                },
                Precision::Precise(_) => r == Ok::<Precision, HdcError>(self),
            },
    {
        match self {
            Precision::Fast(bv) => match TensorTrain::from_bipolar(&bv) {
                Some(t) => Ok(Precision::Precise(t)),
                None => Err(
                    HdcError::InitializationFailed { reason: String::from_str("TT from_bipolar failed") },
                ),
            },
            p => Ok(p),
        }
    }

    /// Demotes an exact vector to bipolar by sign clipping; fast vectors
    /// are returned unchanged.
    pub fn demote(self) -> (r: Self)
        ensures
            match self {
                Precision::Fast(_) => r == self,
                Precision::Precise(t) => r matches Precision::Fast(bv) && bv@ == signs_to_bits(
                    t.entries(),
                ),
            },
    {
        match self {
            Precision::Precise(t) => Precision::Fast(t.to_bipolar()),
            p => p,
        }
    }

    /// Whether the vector is in the exact tier.
    pub fn is_precise(&self) -> (r: bool)
        ensures
            r == (self is Precise),
    {
        matches!(self, Precision::Precise(_))
    }

    /// Binds two vectors of the same tier; mixed tiers are refused.
    pub fn bind(a: &Self, b: &Self) -> (r: Result<Self, HdcError>)
        ensures
            match (a, b) {
                (Precision::Fast(x), Precision::Fast(y)) => if x@.len() == y@.len() {
                    r matches Ok(Precision::Fast(v)) && v@ == bind_seq(x@, y@)
                } else {
                    r == Err::<Precision, HdcError>(
                        HdcError::DimensionMismatch { expected: x@.len() as usize, actual: y@.len() as usize },
                    )
                },
                (Precision::Precise(x), Precision::Precise(y)) => if x.entries().len()
                    == y.entries().len() {
                    r matches Ok(Precision::Precise(t)) && t.entries() == signs_product(
                        x.entries(),
                        y.entries(),
                    )
                } else {
                    r matches Err(HdcError::LogicFault { reason }) && reason@
                        == "TT bind failed (likely mode-dim mismatch)"@
                },
                _ => r matches Err(HdcError::LogicFault { reason }) && reason@
                    == "Precision tiers must match; call promote/demote first"@,
            },
    {
        match (a, b) {
            (Precision::Fast(x), Precision::Fast(y)) => match x.bind(y) {
                Ok(v) => Ok(Precision::Fast(v)),
                Err(e) => Err(e),
            },
            (Precision::Precise(x), Precision::Precise(y)) => match TensorTrain::bind(x, y) {
                Some(t) => Ok(Precision::Precise(t)),
                None => Err(
                    HdcError::LogicFault {
                        reason: String::from_str("TT bind failed (likely mode-dim mismatch)"),
                    },
                ),
            },
            _ => Err(
                HdcError::LogicFault {
                    reason: String::from_str("Precision tiers must match; call promote/demote first"),
                },
            ),
        }
    }
}

/// Promoting and then demoting gives back the exact bits.
pub proof fn lemma_promote_demote_roundtrip(bits: Seq<bool>)
    ensures
        signs_to_bits(bits_to_signs(bits)) == bits,
{
    assert(signs_to_bits(bits_to_signs(bits)) =~= bits);
}

/// Binding in the exact tier and demoting agrees with binding in the fast
/// tier.
pub proof fn lemma_bind_tiers_agree(a: Seq<bool>, b: Seq<bool>)
    requires
        a.len() == b.len(),
    ensures
        signs_to_bits(signs_product(bits_to_signs(a), bits_to_signs(b))) == bind_seq(a, b),
{
    assert(signs_to_bits(signs_product(bits_to_signs(a), bits_to_signs(b))) =~= bind_seq(a, b));
}

} // verus!
