//! Ready-made set-ups that a driver renders.
use vstd::prelude::*;
use crate::scalar::Scalar;
use crate::vector::Vector2;
use crate::particle::Particle;
use crate::world::{World, WorldSettings};

verus! {

/// Where a picture looks: the point at its centre, the zoom as a power of
/// two, and the brightness of one body.
pub struct Camera<S> {
    pub position: Vector2<S>,
    pub zoom: S,
    pub brightness: S,
}

/// A world, the camera that looks at it, and the size of the picture in pixels.
pub struct Still<S> {
    pub world: World<S>,
    pub camera: Camera<S>,
    pub width: u32,
    pub height: u32,
}

/// The closing picture of a collision of two galaxies: the stored bodies in
/// their order, in a world that evaluates forces over the tree and in
/// parallel, seen from the origin on a canvas of 3840 by 2160 pixels.
pub fn last_image_galaxy_collision<S: Scalar>(
    gravity_strength: S,
    softening_length: S,
    accuracy: S,
    zoom: S,
    brightness: S,
    particles: Vec<Particle<S>>,
) -> (still: Still<S>)
    ensures
        still.world.particles@ == particles@,
        still.world.settings == (WorldSettings {
            gravity_strength,
            softening_length,
            accuracy,
            quadtree: true,
            multiprocessing: true,
        }),
        still.camera == (Camera { position: Vector2::<S>::zero_spec(), zoom, brightness }),
        still.width == 3840,
        still.height == 2160,
{
    let settings = WorldSettings {
        gravity_strength,
        softening_length,
        accuracy,
        quadtree: true,
        multiprocessing: true,
    };
    let world = World { particles, settings };
    let camera = Camera { position: Vector2::zero(), zoom, brightness };
    Still { world, camera, width: 3840, height: 2160 }
}

} // verus!
