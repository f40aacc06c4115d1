//! Soft-body bookkeeping for a GPU amoeba renderer: mesh topology, the packing of
//! node data into fixed-size shader buffers, the instance counter and the size of
//! the vertex buffer, each with its contract.
use vstd::prelude::*;

pub mod instances;
pub mod mesh;
pub mod nodes;
pub mod particle;
pub mod soft_body_compute;
pub mod soft_body_material;
pub mod vertices;

pub use crate::instances::{SoftBodyInstanceData, SoftBodyInstancesPlugin};
pub use crate::mesh::{GridSize, MeshBuilder, MeshVertex};
pub use crate::nodes::{PackedBuffers, SoftBody, SoftBodyNodesPlugin};
pub use crate::particle::{Particle2dBuffer, Particle2dPlugin};
pub use crate::soft_body_compute::{SoftBodyCompute, SoftBodyComputePlugin};
pub use crate::soft_body_material::SoftBodyMaterial2dPlugin;
pub use crate::vertices::{SoftBodyVertex2dBuffer, SoftBodyVerticesPlugin};

verus! {

/// Adds every part of the soft-body renderer to an application: vertices,
/// instances, nodes, the material and the compute pass.
pub struct SoftBodyPlugin;

} // verus!
