//! Syntax-tree node kinds the language-model codebook is keyed on.
use vstd::prelude::*;
use crate::text::{push_str, string_from};

verus! {

/// Kind of a syntax-tree node.
#[derive(Debug, Clone, PartialEq, Eq)]
pub enum NodeKind {
    /// The tree root.
    Root,
    /// A literal with its source text.
    Literal { value: String },
}

/// The codebook key of a node kind: the variant name, with the literal's
/// text quoted for literals.
pub open spec fn kind_key(kind: NodeKind) -> Seq<char> {
    match kind {
        NodeKind::Root => "Root"@,
        NodeKind::Literal { value } => "Literal { value: \""@ + value@ + "\" }"@,
    }
}

/// Renders the codebook key of a node kind.
pub fn kind_key_string(kind: &NodeKind) -> (r: String)
    ensures
        r@ == kind_key(*kind),
{
    let mut out: Vec<char> = Vec::new();
    match kind {
        NodeKind::Root => {
            push_str(&mut out, "Root");
        },
        NodeKind::Literal { value } => {
            push_str(&mut out, "Literal { value: \"");
            push_str(&mut out, value.as_str());
            push_str(&mut out, "\" }");
        },
    }
    string_from(out.as_slice())
}

/// A copy of a node kind.
pub fn copy_kind(k: &NodeKind) -> (r: NodeKind)
    ensures
        r == *k,
{
    match k {
        NodeKind::Root => NodeKind::Root,
        NodeKind::Literal { value } => NodeKind::Literal { value: value.clone() },
    }
}

} // verus!
