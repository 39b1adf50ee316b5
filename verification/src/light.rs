//! Point lights: a position, a color, and a scalar intensity.

use vstd::prelude::*;
use crate::vec3::Point3;
use crate::color::Color;

verus! {

#[derive(Clone, Copy, Debug, PartialEq, Eq, Structural)]
pub struct Light {
    pub position: Point3,
    pub color: Color,
    pub intensity: i64,
}

impl Light {
    pub fn new(position: Point3, color: Color, intensity: i64) -> (l: Light)
        ensures
            l == (Light { position, color, intensity }),
    {
        Light { position, color, intensity }
    }
}

} // verus!
