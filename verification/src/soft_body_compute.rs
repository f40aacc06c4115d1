use vstd::prelude::*;

use crate::vertices::SoftBodyVertex2dBuffer;

verus! {

/// Registers the soft-body compute shader with an application.
pub struct SoftBodyComputePlugin;

/// The plain values of the soft-body compute pass: how many soft-body instances
/// exist, and how many vertices each one has.
#[derive(Copy, Clone, Debug)]
pub struct SoftBodyCompute {
    pub num_instances: u32,
    pub num_vertices_per_instance: u32,
}

impl SoftBodyCompute {
    /// No instances yet, `NUM_VERTICES_PER_INSTANCE` vertices per instance.
    pub fn new() -> (r: Self)
        ensures
            r.num_instances == 0,
            r.num_vertices_per_instance == SoftBodyVertex2dBuffer::NUM_VERTICES_PER_INSTANCE,
    {
        SoftBodyCompute {
            num_instances: 0,
            num_vertices_per_instance: SoftBodyVertex2dBuffer::NUM_VERTICES_PER_INSTANCE,
        }
    }

    /// Counts one more instance and returns the new count.
    pub fn add_instance(&mut self) -> (r: u32)
        requires
            old(self).num_instances < u32::MAX,
        ensures
            r == old(self).num_instances + 1,
            final(self).num_instances == r,
            final(self).num_vertices_per_instance == old(self).num_vertices_per_instance,
    {
        self.num_instances = self.num_instances + 1;
        self.num_instances
    }

    /// Counts one instance less and returns the new count.
    pub fn remove_instance(&mut self) -> (r: u32)
        requires
            old(self).num_instances > 0,
        ensures
            r == old(self).num_instances - 1,
            final(self).num_instances == r,
            final(self).num_vertices_per_instance == old(self).num_vertices_per_instance,
    {
        self.num_instances = self.num_instances - 1;
        self.num_instances
    }

    /// The size of one compute workgroup: 128 invocations along x.
    pub fn workgroup_size() -> (r: (u32, u32, u32))
        ensures
            r == (128u32, 1u32, 1u32),
    {
        (128, 1, 1)
    }

    /// How many workgroups to dispatch: enough along x for `num_vertices`
    /// vertices, whole workgroups only, and one row per instance.
    pub fn workgroup_count(num_vertices: u32, num_instances: u32) -> (r: (u32, u32, u32))
        ensures
            r == (num_vertices / 128, num_instances, 1u32),
    {
        let size: (u32, u32, u32) = Self::workgroup_size();
        (num_vertices / size.0, num_instances, 1)
    }
}

} // verus!
