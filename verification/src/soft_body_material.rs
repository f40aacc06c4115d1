use vstd::prelude::*;

verus! {

/// Registers the soft-body material with an application.
pub struct SoftBodyMaterial2dPlugin;

} // verus!
