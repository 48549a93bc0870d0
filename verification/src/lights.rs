//! Lights.
use crate::colour::Colour;
use crate::math::tuple::Tuple;
use vstd::prelude::*;

verus! {

/// What every light offers: how bright it is and where it stands.
pub trait Light {
    /// The colour and brightness of the light.
    spec fn spec_intensity(&self) -> Colour;

    /// The place of the light.
    spec fn spec_position(&self) -> Tuple<u64>;

    /// The colour and brightness of the light.
    fn intensity(&self) -> (intensity: &Colour)
        ensures
            *intensity == self.spec_intensity(),
    ;

    /// The place of the light.
    fn position(&self) -> (position: &Tuple<u64>)
        ensures
            *position == self.spec_position(),
    ;
}

/// A light at one point, as bright at any distance.
#[derive(Clone, Copy, Debug)]
pub struct PointLight {
    /// The colour and brightness of the light.
    pub intensity: Colour,
    /// The place of the light.
    pub position: Tuple<u64>,
}

impl PointLight {
    /// The light of the given brightness at the given place.
    pub fn new(intensity: Colour, position: Tuple<u64>) -> (light: PointLight)
        ensures
            light == (PointLight { intensity, position }),
    {
        PointLight { intensity, position }
    }
}

impl Light for PointLight {
    open spec fn spec_intensity(&self) -> Colour {
        self.intensity
    }

    open spec fn spec_position(&self) -> Tuple<u64> {
        self.position
    }

    fn intensity(&self) -> (intensity: &Colour) {
        &self.intensity
    }

    fn position(&self) -> (position: &Tuple<u64>) {
        &self.position
    }
}

} // verus!
