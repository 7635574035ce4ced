//! Encoder protection: a secret stack of permutations and key bindings
//! that makes a random-projection encoder hard to invert without the keys.
use vstd::prelude::*;
use crate::hdc::error::HdcError;
use crate::hdc::rng::{chacha20_stream, chacha20_words};
use crate::hdc::vector::{
    bind_seq, lemma_bind_cancel_right, lemma_permute_inverse, permute_seq, seed_bits,
    BipolarVector, HD_DIMENSIONS,
};

verus! {

/// Encoder with a secret permutation stack for one epoch.
pub struct ProtectedEncoder {
    key: BipolarVector,
    perm_offset: usize,
    key2: BipolarVector,
    perm_offset2: usize,
    pub epoch: u64,
}

/// The four secret words an encoder derives from its seed and epoch.
pub open spec fn epoch_words(secret_seed: u64, epoch: u64) -> Seq<u64> {
    chacha20_words(vstd::wrapping::u64_specs::wrapping_add(secret_seed, epoch), 4)
}

/// `(input permuted by o1, bound to k1, permuted by o2, bound to k2)`.
pub open spec fn protect_seq(x: Seq<bool>, k1: Seq<bool>, o1: nat, k2: Seq<bool>, o2: nat) -> Seq<bool> {
    bind_seq(permute_seq(bind_seq(permute_seq(x, o1), k1), o2), k2)
}

/// The protection stack run backwards.
pub open spec fn unprotect_seq(y: Seq<bool>, k1: Seq<bool>, o1: nat, k2: Seq<bool>, o2: nat) -> Seq<bool> {
    permute_seq(
        bind_seq(permute_seq(bind_seq(y, k2), (HD_DIMENSIONS - o2) as nat), k1),
        (HD_DIMENSIONS - o1) as nat,
    )
}

impl ProtectedEncoder {
    /// Keys of full dimension and offsets below it.
    pub closed spec fn wf(&self) -> bool {
        &&& self.key@.len() == HD_DIMENSIONS
        &&& self.key2@.len() == HD_DIMENSIONS
        &&& self.perm_offset < HD_DIMENSIONS
        &&& self.perm_offset2 < HD_DIMENSIONS
    }

    /// The epoch counter: the value of the public `epoch` field.
    pub closed spec fn epoch_value(&self) -> u64 {
        self.epoch
    }

    /// The encoder's secrets are those derived from `secret_seed` at `epoch`.
    pub closed spec fn derived_from(&self, secret_seed: u64, epoch: u64) -> bool {
        let w = epoch_words(secret_seed, epoch);
        &&& self.key@ == seed_bits(w[0])
        &&& self.perm_offset == (w[1] as usize) % HD_DIMENSIONS
        &&& self.key2@ == seed_bits(w[2])
        &&& self.perm_offset2 == (w[3] as usize) % HD_DIMENSIONS
    }

    /// What `protect` computes on an input of full dimension.
    pub closed spec fn protect_spec(&self, x: Seq<bool>) -> Seq<bool> {
        protect_seq(x, self.key@, self.perm_offset as nat, self.key2@, self.perm_offset2 as nat)
    }

    /// What `unprotect` computes on an input of full dimension.
    pub closed spec fn unprotect_spec(&self, y: Seq<bool>) -> Seq<bool> {
        unprotect_seq(y, self.key@, self.perm_offset as nat, self.key2@, self.perm_offset2 as nat)
    }

    /// Builds the encoder of `epoch` from a secret seed: a ChaCha20 stream
    /// seeded with `secret_seed + epoch` (wrapping) gives the two keys and
    /// the two offsets.
    pub fn new(secret_seed: u64, epoch: u64) -> (r: Self)
        ensures
            r.wf(),
            r.derived_from(secret_seed, epoch),
            r.epoch_value() == epoch,
    {
        let words = chacha20_stream(secret_seed.wrapping_add(epoch), 4);
        let key = BipolarVector::from_seed(words[0]);
        let perm_offset = (words[1] as usize) % HD_DIMENSIONS;
        let key2 = BipolarVector::from_seed(words[2]);
        let perm_offset2 = (words[3] as usize) % HD_DIMENSIONS;
        ProtectedEncoder { key, perm_offset, key2, perm_offset2, epoch }
    }

    /// Protects a vector: permute, bind the first key, permute, bind the
    /// second key. Fails unless the input has full dimension.
    pub fn protect(&self, input: &BipolarVector) -> (r: Result<BipolarVector, HdcError>)
        requires
            self.wf(),
        ensures
            input@.len() == HD_DIMENSIONS ==> (r matches Ok(v) && v@ == self.protect_spec(input@)
                && v@.len() == HD_DIMENSIONS),
            input@.len() != HD_DIMENSIONS ==> r is Err,
    {
        let step1 = input.permute(self.perm_offset)?;
        let step2 = step1.bind(&self.key)?;
        let step3 = step2.permute(self.perm_offset2)?;
        step3.bind(&self.key2)
    }

    /// Reverses the protection stack. Fails unless the input has full
    /// dimension.
    pub fn unprotect(&self, protected: &BipolarVector) -> (r: Result<BipolarVector, HdcError>)
        requires
            self.wf(),
        ensures
            protected@.len() == HD_DIMENSIONS ==> (r matches Ok(v) && v@ == self.unprotect_spec(
                protected@,
            ) && v@.len() == HD_DIMENSIONS),
            protected@.len() != HD_DIMENSIONS ==> r is Err,
    {
        let step1 = protected.bind(&self.key2)?;
        let step2 = step1.permute(HD_DIMENSIONS - self.perm_offset2)?;
        let step3 = step2.bind(&self.key)?;
        step3.permute(HD_DIMENSIONS - self.perm_offset)
    }

    /// Moves to the next epoch and draws that epoch's secrets.
    pub fn rotate_epoch(&mut self, secret_seed: u64)
        requires
            old(self).epoch_value() < u64::MAX,
        ensures
            final(self).wf(),
            final(self).epoch_value() == old(self).epoch_value() + 1,
            final(self).derived_from(secret_seed, (old(self).epoch_value() + 1) as u64),
    {
        self.epoch = self.epoch + 1;
        let new = Self::new(secret_seed, self.epoch);
        self.key = new.key;
        self.perm_offset = new.perm_offset;
        self.key2 = new.key2;
        self.perm_offset2 = new.perm_offset2;
    }
}

/// Protection is invertible with the same encoder: unprotecting a
/// protected vector of full dimension gives the vector back.
pub proof fn lemma_unprotect_protect(enc: ProtectedEncoder, x: Seq<bool>)
    requires
        enc.wf(),
        x.len() == HD_DIMENSIONS,
    ensures
        enc.unprotect_spec(enc.protect_spec(x)) == x,
{
    let k1 = enc.key@;
    let k2 = enc.key2@;
    let o1 = enc.perm_offset as nat;
    let o2 = enc.perm_offset2 as nat;
    let a = permute_seq(x, o1);
    let b = bind_seq(a, k1);
    let c = permute_seq(b, o2);
    lemma_bind_cancel_right(c, k2);
    lemma_permute_inverse(b, o2);
    lemma_bind_cancel_right(a, k1);
    lemma_permute_inverse(x, o1);
}

/// Two encoders built from the same seed and epoch protect and unprotect
/// every input identically (so an encoder rotated to an epoch acts as one
/// built for that epoch).
pub proof fn lemma_protect_deterministic(
    e1: ProtectedEncoder,
    e2: ProtectedEncoder,
    secret_seed: u64,
    epoch: u64,
    x: Seq<bool>,
)
    requires
        e1.derived_from(secret_seed, epoch),
        e2.derived_from(secret_seed, epoch),
    ensures
        e1.protect_spec(x) == e2.protect_spec(x),
        e1.unprotect_spec(x) == e2.unprotect_spec(x),
{
}

} // verus!
