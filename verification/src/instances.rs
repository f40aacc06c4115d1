use vstd::prelude::*;

verus! {

/// Registers the instance buffer and its shader library with an application.
pub struct SoftBodyInstancesPlugin;

/// The range of the node buffer that belongs to one soft-body instance:
/// `node_length` nodes starting at `node_offset`.
#[derive(Copy, Clone, Debug, PartialEq, Eq, Structural)]
pub struct SoftBodyInstanceData {
    pub node_offset: u32,
    pub node_length: u32,
}

/// The empty range at offset zero.
pub open spec fn no_instance() -> SoftBodyInstanceData {
    SoftBodyInstanceData { node_offset: 0, node_length: 0 }
}

impl Default for SoftBodyInstanceData {
    /// The empty range at offset zero, which unused slots of the instance buffer hold.
    fn default() -> (r: Self)
        ensures
            r == no_instance(),
    {
        SoftBodyInstanceData { node_offset: 0, node_length: 0 }
    }
}

} // verus!
