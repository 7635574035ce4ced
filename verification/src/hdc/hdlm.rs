//! Semantic mapping between forensic syntax-tree node kinds and the
//! hypervector space: logic bases bound to decorative vectors.
use vstd::prelude::*;
use crate::hdc::error::HdcError;
use crate::hdc::vector::{
    bind_seq, hamming_seq, lemma_bind_cancel_right, lemma_hamming_bounded, lemma_hamming_zero_iff_equal, BipolarVector,
    HD_DIMENSIONS,
};

verus! {

/// Result type of the mapping operations.
pub type HdlmResult<T> = Result<T, HdcError>;

/// Tier-1 forensic syntax-tree node kinds.
#[derive(Debug, Clone, Copy, PartialEq, Eq, Hash)]
pub enum ForensicNode {
    Module,
    Function,
    Statement,
    Expression,
    Literal,
    Identifier,
    Unknown,
}

/// Position of a node kind among the seven base vectors.
pub open spec fn node_index(n: ForensicNode) -> int {
    match n {
        ForensicNode::Module => 0,
        ForensicNode::Function => 1,
        ForensicNode::Statement => 2,
        ForensicNode::Expression => 3,
        ForensicNode::Literal => 4,
        ForensicNode::Identifier => 5,
        ForensicNode::Unknown => 6,
    }
}

fn node_index_exec(n: ForensicNode) -> (r: usize)
    ensures
        r == node_index(n),
{
    match n {
        ForensicNode::Module => 0,
        ForensicNode::Function => 1,
        ForensicNode::Statement => 2,
        ForensicNode::Expression => 3,
        ForensicNode::Literal => 4,
        ForensicNode::Identifier => 5,
        ForensicNode::Unknown => 6,
    }
}

/// Number of positional bases (children per node).
pub const POSITIONAL_BASES: usize = 10;

/// Node-kind bases and positional bases of the mapping.
pub struct SemanticMap {
    node_bases: Vec<BipolarVector>,
    pos_bases: Vec<BipolarVector>,
}

/// A projected vector recovers its node base when its unbound form is at
/// cosine similarity above 0.99 from the base, i.e. `200 * distance < dim`.
pub open spec fn recovers(recovered: Seq<bool>, base: Seq<bool>) -> bool {
    200 * hamming_seq(recovered, base) < recovered.len()
}

impl SemanticMap {
    #[verifier::type_invariant]
    spec fn inv(&self) -> bool {
        &&& self.node_bases@.len() == 7
        &&& self.pos_bases@.len() == POSITIONAL_BASES
        &&& forall|i: int| 0 <= i < 7 ==> (#[trigger] self.node_bases@[i])@.len() == HD_DIMENSIONS
        &&& forall|i: int| 0 <= i < POSITIONAL_BASES ==> (#[trigger] self.pos_bases@[i])@.len()
            == HD_DIMENSIONS
    }

    /// The base vector of a node kind.
    pub closed spec fn node_base(&self, n: ForensicNode) -> Seq<bool> {
        self.node_bases@[node_index(n)]@
    }

    /// The positional base vectors.
    pub closed spec fn pos_base_views(&self) -> Seq<Seq<bool>> {
        self.pos_bases@.map_values(|v: BipolarVector| v@)
    }

    /// A fresh mapping with random bases for the seven node kinds and
    /// ten positional bases.
    pub fn new() -> (r: HdlmResult<Self>)
        ensures
            r is Ok,
    {
        let mut node_bases: Vec<BipolarVector> = Vec::new();
        let mut i: usize = 0;
        while i < 7
            invariant
                i <= 7,
                node_bases@.len() == i,
                forall|j: int| 0 <= j < i ==> (#[trigger] node_bases@[j])@.len() == HD_DIMENSIONS,
            decreases 7 - i,
        {
            let v = BipolarVector::new_random()?;
            node_bases.push(v);
            i = i + 1;
        }
        let mut pos_bases: Vec<BipolarVector> = Vec::new();
        let mut i: usize = 0;
        while i < POSITIONAL_BASES
            invariant
                i <= POSITIONAL_BASES,
                pos_bases@.len() == i,
                forall|j: int| 0 <= j < i ==> (#[trigger] pos_bases@[j])@.len() == HD_DIMENSIONS,
            decreases POSITIONAL_BASES - i,
        {
            let v = BipolarVector::new_random()?;
            pos_bases.push(v);
            i = i + 1;
        }
        Ok(SemanticMap { node_bases, pos_bases })
    }

    /// The positional base at a child index, if there is one.
    pub fn get_pos_base(&self, index: usize) -> (r: Option<&BipolarVector>)
        ensures
            index < POSITIONAL_BASES ==> (r matches Some(v) && v@ == self.pos_base_views()[index as int]
                && v@.len() == HD_DIMENSIONS),
            index >= POSITIONAL_BASES ==> r is None,
    {
        proof {
            use_type_invariant(self);
        }
        if index < self.pos_bases.len() {
            Some(&self.pos_bases[index])
        } else {
            None
        }
    }

    /// Projects a node kind with its decoration: `base(node) XOR decoration`.
    pub fn project_node(&self, node: ForensicNode, decoration: &BipolarVector) -> (r: HdlmResult<
        BipolarVector,
    >)
        ensures
            decoration@.len() == HD_DIMENSIONS ==> (r matches Ok(v) && v@ == bind_seq(
                self.node_base(node),
                decoration@,
            )),
            decoration@.len() != HD_DIMENSIONS ==> r is Err,
            self.node_base(node).len() == HD_DIMENSIONS,
    {
        proof {
            use_type_invariant(self);
        }
        let idx = node_index_exec(node);
        let base = &self.node_bases[idx];
        base.bind(decoration)
    }

    /// Whether `projected`, unbound from `decoration`, recovers the base of
    /// `node` (cosine similarity above 0.99). Fails when the dimensions of
    /// `projected` and `decoration` differ or are not the full dimension.
    pub fn verify_forensic_integrity(
        &self,
        projected: &BipolarVector,
        node: ForensicNode,
        decoration: &BipolarVector,
    ) -> (r: HdlmResult<bool>)
        ensures
            projected@.len() == decoration@.len() && projected@.len() == HD_DIMENSIONS ==> r
                == Ok::<bool, HdcError>(
                recovers(bind_seq(projected@, decoration@), self.node_base(node)),
            ),
            projected@.len() != decoration@.len() || projected@.len() != HD_DIMENSIONS ==> r is Err,
    {
        proof {
            use_type_invariant(self);
        }
        let idx = node_index_exec(node);
        let base = &self.node_bases[idx];
        let recovered = projected.bind(decoration)?;
        proof {
            lemma_hamming_bounded(recovered@, base@, recovered@.len() as int);
        }
        let h = recovered.hamming_distance(base)?;
        let n = recovered.dim();
        Ok(h < n && 200 * h < n)
    }
}

/// The mapping's central property: a projection `base XOR decoration`
/// verifies against the same base and decoration.
pub proof fn lemma_projection_verifies(base: Seq<bool>, decoration: Seq<bool>)
    requires
        base.len() == HD_DIMENSIONS,
        decoration.len() == HD_DIMENSIONS,
    ensures
        recovers(bind_seq(bind_seq(base, decoration), decoration), base),
{
    lemma_bind_cancel_right(base, decoration);
    lemma_hamming_zero_iff_equal(base, base);
}

} // verus!
