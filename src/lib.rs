//! Rules of two small simulations on an integer plane: food that appears at
//! random places under a cap and expires on a countdown, and a swarm of
//! nanobots that push apart, move by their velocities, and are picked out by a
//! dragged rectangle.
use vstd::prelude::*;

pub mod camera;
pub mod food;
pub mod geom;
pub mod select;
pub mod swarm;

verus! {

} // verus!
