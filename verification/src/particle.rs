use vstd::prelude::*;

verus! {

/// Registers the particle buffer and its shader library with an application.
pub struct Particle2dPlugin;

/// The storage buffer of 2d particles, which holds `MAX_PARTICLES` of them.
pub struct Particle2dBuffer;

impl Particle2dBuffer {
    pub const MAX_PARTICLES: u32 = 64;
}

} // verus!
