//! Runtime-issued identities, held as the issuing runtime's namespace and the plain slot
//! and generation they carry.

use vstd::prelude::*;

verus! {

/// Identity of one mounted widget node: its runtime, its slot, and the slot's generation.
#[derive(Clone, Copy, Debug, PartialEq, Eq, Hash, Structural)]
pub struct MountedNodeId {
    /// Namespace of the runtime that issued the identity.
    pub namespace: u64,
    /// Slot of the node in its mounted tree.
    pub slot: u64,
    /// Generation of the slot when the node was mounted.
    pub generation: u64,
}

/// Identity of one logical surface.
#[derive(Clone, Copy, Debug, PartialEq, Eq, Hash, Structural)]
pub struct SurfaceId {
    /// Namespace of the runtime that issued the identity.
    pub namespace: u64,
    /// Slot of the surface in its runtime.
    pub slot: u64,
    /// Generation of the slot when the surface was issued.
    pub generation: u64,
}

/// Identity of one published semantic node.
#[derive(Clone, Copy, Debug, PartialEq, Eq, Hash, Structural)]
pub struct SemanticNodeId {
    /// Namespace of the runtime that issued the identity.
    pub namespace: u64,
    /// Slot of the semantic node.
    pub slot: u64,
    /// Generation of the slot when the node was published.
    pub generation: u64,
}

} // verus!
