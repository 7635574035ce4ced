//! Helpers of the resonator factorizer.
use vstd::prelude::*;
use crate::hdc::error::HdcError;
use crate::hdc::vector::{bind_seq, BipolarVector};

verus! {

/// The index the fold starts from: the first index other than `skip`.
pub open spec fn first_kept(skip: int) -> int {
    if skip == 0 {
        1
    } else {
        0
    }
}

/// XOR of `vs[first_kept(skip)]` with every `vs[k]`, `k < i`, other than
/// `skip` and the starting index, in index order.
pub open spec fn xor_fold_upto(vs: Seq<Seq<bool>>, skip: int, i: int) -> Seq<bool>
    decreases i,
{
    if i <= 0 {
        vs[first_kept(skip)]
    } else {
        let acc = xor_fold_upto(vs, skip, i - 1);
        if i - 1 == skip || i - 1 == first_kept(skip) {
            acc
        } else {
            bind_seq(acc, vs[i - 1])
        }
    }
}

/// Index `k` takes part in the fold and has a dimension other than the
/// starting vector's.
pub open spec fn fold_mismatch(vs: Seq<Seq<bool>>, skip: int, k: int) -> bool {
    k != skip && k != first_kept(skip) && vs[k].len() != vs[first_kept(skip)].len()
}

/// The views of a slice of vectors.
pub open spec fn owned_views(vs: Seq<BipolarVector>) -> Seq<Seq<bool>> {
    vs.map_values(|v: BipolarVector| v@)
}

/// XOR of all vectors of `vs` except the one at `skip`. Fails on the first
/// vector whose dimension differs from the starting one.
pub fn xor_fold(vs: &[BipolarVector], skip: usize) -> (r: Result<BipolarVector, HdcError>)
    requires
        vs@.len() > first_kept(skip as int),
    ensures
        (forall|k: int| 0 <= k < vs@.len() ==> !#[trigger] fold_mismatch(owned_views(vs@), skip as int, k))
            ==> (r matches Ok(v) && v@ == xor_fold_upto(owned_views(vs@), skip as int, vs@.len() as int)),
        (exists|k: int| 0 <= k < vs@.len() && #[trigger] fold_mismatch(owned_views(vs@), skip as int, k))
            ==> exists|k: int|
            0 <= k < vs@.len() && #[trigger] fold_mismatch(owned_views(vs@), skip as int, k) && (forall|
                m: int,
            |
                0 <= m < k ==> !#[trigger] fold_mismatch(owned_views(vs@), skip as int, m)) && r
                == Err::<BipolarVector, HdcError>(
                HdcError::DimensionMismatch {
                    expected: vs@[first_kept(skip as int)]@.len() as usize,
                    actual: vs@[k]@.len() as usize,
                },
            ),
{
    let ghost views = owned_views(vs@);
    let first: usize = if skip == 0 {
        1
    } else {
        0
    };
    let mut acc = vs[first].copied();
    let mut i: usize = 0;
    while i < vs.len()
        invariant
            views == owned_views(vs@),
            first == first_kept(skip as int),
            first < vs@.len(),
            i <= vs@.len(),
            acc@ == xor_fold_upto(views, skip as int, i as int),
            acc@.len() == views[first as int].len(),
            forall|m: int| 0 <= m < i ==> !#[trigger] fold_mismatch(views, skip as int, m),
        decreases vs@.len() - i,
    {
        if i != skip && i != first {
            let v = &vs[i];
            if acc.dim() != v.dim() {
                assert(fold_mismatch(views, skip as int, i as int));
                return Err(HdcError::DimensionMismatch { expected: acc.dim(), actual: v.dim() });
            }
            acc = match acc.bind(v) {
                Ok(b) => b,
                Err(e) => {
                    return Err(e);
                },
            };
        }
        i = i + 1;
    }
    Ok(acc)
}

} // verus!
