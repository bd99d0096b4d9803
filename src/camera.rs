use vstd::prelude::*;

use crate::geom::{add_spec, fits, vec_of, Vec2};

verus! {

/// The camera's offset after one frame: while the pan button is held, the
/// pointer's movement is added to it; otherwise it stays.
pub open spec fn panned(camera: Vec2, delta: Vec2, held: bool) -> Vec2 {
    if held {
        vec_of(add_spec(camera, delta))
    } else {
        camera
    }
}

/// Moves the camera by the pointer's movement `delta` while the pan button is held.
pub fn pan_camera(camera: &mut Vec2, delta: Vec2, held: bool)
    requires
        held ==> fits(add_spec(*old(camera), delta)),
    ensures
        *final(camera) == panned(*old(camera), delta, held),
{
    if held {
        *camera = camera.add(delta);
    }
}

} // verus!
