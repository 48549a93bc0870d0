//! Materials, and how a lit point of a surface is coloured.
use crate::colour::{colour_product, colour_sum, grey, Colour};
use crate::lights::Light;
use crate::math::arithmetic::{functional, power, Arithmetic};
use crate::math::float::ZERO;
use crate::math::order::{at_most, less_than, spec_at_most, spec_less_than};
use crate::math::tuple::{dot_product, normalized, reflected, tuple_difference, tuple_negative, Tuple};
use vstd::prelude::*;

verus! {

/// The share of ambient light that a plain material gives back: the
/// binary64 number nearest to one tenth.
pub const PLAIN_AMBIENT: u64 = 0x3fb9_9999_9999_999a;

/// The share of diffuse light that a plain material gives back: the
/// binary64 number nearest to nine tenths.
pub const PLAIN_DIFFUSE: u64 = 0x3fec_cccc_cccc_cccd;

/// The share of mirrored light that a plain material gives back: the
/// binary64 number nearest to nine tenths.
pub const PLAIN_SPECULAR: u64 = 0x3fec_cccc_cccc_cccd;

/// The shininess of a plain material: two hundred.
pub const PLAIN_SHININESS: u64 = 0x4069_0000_0000_0000;

/// What a surface is made of: its colour and how it answers to light.
#[derive(Clone, Copy, Debug, PartialEq, Eq, Structural)]
pub struct Material {
    /// The colour of the surface.
    pub colour: Colour,
    /// The share of the light that reaches the surface from all around.
    pub ambient: u64,
    /// The share of the light that the surface scatters.
    pub diffuse: u64,
    /// The share of the light that the surface mirrors.
    pub specular: u64,
    /// How tight the mirrored highlight is.
    pub shininess: u64,
}

/// The plain white material.
pub open spec fn plain() -> Material {
    Material {
        colour: grey(crate::math::float::ONE),
        ambient: PLAIN_AMBIENT,
        diffuse: PLAIN_DIFFUSE,
        specular: PLAIN_SPECULAR,
        shininess: PLAIN_SHININESS,
    }
}

impl Default for Material {
    /// A plain white material.
    fn default() -> (m: Self)
        ensures
            m == plain(),
    {
        Material {
            colour: Colour::white(),
            ambient: PLAIN_AMBIENT,
            diffuse: PLAIN_DIFFUSE,
            specular: PLAIN_SPECULAR,
            shininess: PLAIN_SHININESS,
        }
    }
}

/// The colour of the material as the light tints it.
pub open spec fn effective_colour<A: Arithmetic<u64>>(arith: &A, m: Material, intensity: Colour) -> Colour {
    colour_product(arith, m.colour, intensity)
}

/// The ambient part: the tinted colour times the ambient share.
pub open spec fn ambient_part<A: Arithmetic<u64>>(arith: &A, m: Material, intensity: Colour) -> Colour {
    colour_product(arith, effective_colour(arith, m, intensity), grey(m.ambient))
}

/// The unit vector from the point towards the light.
pub open spec fn light_vector<A: Arithmetic<u64>>(
    arith: &A,
    position: Tuple<u64>,
    point: Tuple<u64>,
) -> Tuple<u64> {
    normalized(arith, tuple_difference(arith, position, point))
}

/// The diffuse part where the light is in front of the surface: the tinted
/// colour times the diffuse share times the cosine between light and
/// normal.
pub open spec fn diffuse_part<A: Arithmetic<u64>>(
    arith: &A,
    m: Material,
    intensity: Colour,
    light_dot_normal: u64,
) -> Colour {
    colour_product(
        arith,
        colour_product(arith, effective_colour(arith, m, intensity), grey(m.diffuse)),
        grey(light_dot_normal),
    )
}

/// The specular part: nothing where the mirrored light points away from
/// the eye, else the light times the specular share times the cosine
/// between mirrored light and eye, raised to the shininess.
pub open spec fn specular_part<A: Arithmetic<u64>>(
    arith: &A,
    m: Material,
    intensity: Colour,
    reflect_dot_eye: u64,
) -> Colour {
    if spec_at_most(reflect_dot_eye, ZERO) {
        grey(ZERO)
    } else {
        colour_product(
            arith,
            colour_product(arith, intensity, grey(m.specular)),
            grey(power(arith, reflect_dot_eye, m.shininess)),
        )
    }
}

/// The colour of a point of a surface under one light: its ambient part
/// alone in shadow or where the light is behind the surface, else the sum
/// of the ambient, the diffuse and the specular part.
pub open spec fn lit_colour<A: Arithmetic<u64>>(
    arith: &A,
    m: Material,
    intensity: Colour,
    position: Tuple<u64>,
    point: Tuple<u64>,
    eye_vec: Tuple<u64>,
    normal_vec: Tuple<u64>,
    in_shadow: bool,
) -> Colour {
    let ambient = ambient_part(arith, m, intensity);
    if in_shadow {
        ambient
    } else {
        let light_vec = light_vector(arith, position, point);
        let light_dot_normal = dot_product(arith, light_vec, normal_vec);
        if spec_less_than(light_dot_normal, ZERO) {
            colour_sum(arith, colour_sum(arith, ambient, grey(ZERO)), grey(ZERO))
        } else {
            let reflect_vec = reflected(arith, tuple_negative(light_vec), normal_vec);
            let reflect_dot_eye = dot_product(arith, reflect_vec, eye_vec);
            colour_sum(
                arith,
                colour_sum(arith, ambient, diffuse_part(arith, m, intensity, light_dot_normal)),
                specular_part(arith, m, intensity, reflect_dot_eye),
            )
        }
    }
}

impl Material {
    /// The colour of the point `point` of a surface of this material, seen
    /// along `eye_vec`, with normal `normal_vec`, under `light`.
    pub fn lighting<A: Arithmetic<u64>, L: Light>(
        &self,
        light: &L,
        point: Tuple<u64>,
        eye_vec: Tuple<u64>,
        normal_vec: Tuple<u64>,
        in_shadow: bool,
        arith: &A,
    ) -> (colour: Colour)
        ensures
            functional(arith) ==> colour == lit_colour(
                arith,
                *self,
                light.spec_intensity(),
                light.spec_position(),
                point,
                eye_vec,
                normal_vec,
                in_shadow,
            ),
    {
        let intensity = *light.intensity();
        let effective_colour = self.colour.mul(&intensity, arith);
        let ambient_light = effective_colour.mul_scalar(self.ambient, arith);

        if in_shadow {
            return ambient_light;
        }
        let light_vec = light.position().sub(&point, arith).normalize(arith);
        let light_dot_normal = light_vec.dot(&normal_vec, arith);
        let diffuse: Colour;
        let specular: Colour;
        if less_than(light_dot_normal, ZERO) {
            diffuse = Colour::black();
            specular = Colour::black();
        } else {
            diffuse = effective_colour.mul_scalar(self.diffuse, arith).mul_scalar(
                light_dot_normal,
                arith,
            );
            let reflect_vec = light_vec.neg().reflect(&normal_vec, arith);
            let reflect_dot_eye = reflect_vec.dot(&eye_vec, arith);
            specular = if at_most(reflect_dot_eye, ZERO) {
                Colour::black()
            } else {
                let factor = arith.powf(reflect_dot_eye, self.shininess);
                intensity.mul_scalar(self.specular, arith).mul_scalar(factor, arith)
            };
        }
        ambient_light.add(&diffuse, arith).add(&specular, arith)
    }
}

} // verus!
