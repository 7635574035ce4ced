//! Deterministic concept vectors: every symbol maps to the vector seeded
//! by the FNV-1a hash of `LFI::CONCEPT::<symbol>`.
use vstd::prelude::*;
use crate::hdc::vector::{seed_bits, BipolarVector};
use crate::text::chars_of;

verus! {

/// FNV-1a 64-bit offset basis.
pub const FNV_OFFSET: u64 = 0xcbf2_9ce4_8422_2325;

/// FNV-1a 64-bit prime.
pub const FNV_PRIME: u64 = 0x0000_0100_0000_01b3;

/// One FNV-1a step over a character's code point.
pub open spec fn fnv_step(h: u64, c: char) -> u64 {
    vstd::wrapping::u64_specs::wrapping_mul(h ^ ((c as u32) as u64), FNV_PRIME)
}

/// FNV-1a over the code points of `s`.
pub open spec fn fnv_chars(s: Seq<char>) -> u64
    decreases s.len(),
{
    if s.len() == 0 {
        FNV_OFFSET
    } else {
        fnv_step(fnv_chars(s.drop_last()), s.last())
    }
}

/// FNV-1a hash of characters, continuing from the hash state `h0` of an
/// already hashed prefix.
pub fn fnv_extend(h0: u64, s: &[char]) -> (r: u64)
    ensures
        forall|pre: Seq<char>| fnv_chars(pre) == h0 ==> r == #[trigger] fnv_chars(pre + s@),
{
    let mut h = h0;
    let mut i: usize = 0;
    while i < s.len()
        invariant
            i <= s@.len(),
            forall|pre: Seq<char>| fnv_chars(pre) == h0 ==> h == #[trigger] fnv_chars(pre + s@.take(i as int)),
        decreases s@.len() - i,
    {
        let c = s[i];
        let ghost hprev = h;
        h = (h ^ (c as u32 as u64)).wrapping_mul(FNV_PRIME);
        assert forall|pre: Seq<char>| fnv_chars(pre) == h0 implies h == #[trigger] fnv_chars(
            pre + s@.take(i as int + 1),
        ) by {
            assert((pre + s@.take(i as int + 1)).drop_last() =~= pre + s@.take(i as int));
            assert(hprev == fnv_chars(pre + s@.take(i as int)));
        }
        i = i + 1;
    }
    assert(s@.take(s@.len() as int) =~= s@);
    h
}

/// The prefix every concept symbol is hashed under.
pub open spec fn concept_prefix() -> Seq<char> {
    "LFI::CONCEPT::"@
}

/// The concept vector of a symbol.
pub open spec fn concept_bits(symbol: Seq<char>) -> Seq<bool> {
    seed_bits(fnv_chars(concept_prefix() + symbol))
}

/// The deterministic concept vector of `symbol`.
pub fn concept_vector(symbol: &str) -> (r: BipolarVector)
    ensures
        r@ == concept_bits(symbol@),
{
    let prefix = chars_of("LFI::CONCEPT::");
    let body = chars_of(symbol);
    assert(fnv_chars(Seq::<char>::empty()) == FNV_OFFSET);
    let hp = fnv_extend(FNV_OFFSET, prefix.as_slice());
    assert(Seq::<char>::empty() + prefix@ =~= prefix@);
    let h = fnv_extend(hp, body.as_slice());
    BipolarVector::from_seed(h)
}

} // verus!
