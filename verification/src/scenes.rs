//! The scenes that can be asked for by name.

use vstd::prelude::*;

verus! {

/// The name of a scene.
#[derive(Clone, Copy, Debug, PartialEq, Eq, Structural)]
pub enum Scene {
    Test,
    ManySpheres,
    TwoPerlinSpheres,
    Earth,
    LightRectangle,
    CornellBox,
    CornellSmokes,
    FinalScene,
    CustomScene,
    SpaceDonut,
    Imagine,
    MengerSponge,
    MandelBulb,
    MandelBox,
    Knot,
    CornellMandelBox,
}

} // verus!
