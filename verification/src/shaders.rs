//! The surface programs of the renderer, as a closed set of selector types.
//!
//! Each program is a pure function from world position, world normal and time
//! to a color, distinguished only by its internal math. That math is built
//! from transcendental floating-point functions and lives in the surrounding
//! application; the types below are the stateless strategy values through
//! which a program is selected and dispatched. Keeping them here lets every
//! interface that the verified core shares with the application speak of the
//! same closed set.

use vstd::prelude::*;

verus! {

/// The sun-like program: multi-octave turbulence granulation, thresholded
/// sunspots, black-body-like coloring, a slow pulse and an orange rim.
#[derive(Clone, Copy, Debug, PartialEq, Eq, Structural)]
pub struct ClassicSunShader;

/// The pulsar program: a sharp periodic pulse, rotating banded noise, a cold
/// violet to hot blue palette and polar jet bursts.
#[derive(Clone, Copy, Debug, PartialEq, Eq, Structural)]
pub struct PulsarShader;

/// The plasma program: two blended noise fields, thresholded filaments, an
/// iridescent cyclic palette and an electric flickering edge.
#[derive(Clone, Copy, Debug, PartialEq, Eq, Structural)]
pub struct PlasmaStarShader;

/// The supernova program: breathing radial expansion, layered core, explosion
/// and fragment fields, an edge flare and a radial burst.
#[derive(Clone, Copy, Debug, PartialEq, Eq, Structural)]
pub struct SupernovaShader;

} // verus!
