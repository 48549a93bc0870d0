//! What all shapes share: an identity, and the way between the space of
//! the world and the space of the shape.
//!
//! Two crossings belong to one surface exactly when they carry the same
//! identifier, whatever the shapes look like. An identifier is 128 bits, and
//! a fresh one is drawn at random.
//!
//! A shape is described in a space of its own and set into the world by a
//! transform. A ray of the world is carried into the space of the shape by
//! the inverse of the transform before the shape is asked what it crosses;
//! a normal of the shape is carried back into the world by the transpose of
//! the inverse.
use crate::intersection::Intersection;
use crate::materials::Material;
use crate::math::arithmetic::{functional, Arithmetic};
use crate::math::float::ZERO;
use crate::math::matrix::algebra::{invertible, is_image, is_inverse};
use crate::math::matrix::{is_transpose_of, Matrix};
use crate::math::tuple::{normalized, spec_is_point, spec_is_vector, Tuple};
use crate::ray::Ray;
use vstd::prelude::*;

pub mod plane;
pub mod sphere;

verus! {

/// The bits that are the same in every identifier drawn at random: the four
/// bits of the version field and the top two of the variant field.
pub const FIXED_FIELDS: u128 = 0x0000_0000_0000_f000_c000_0000_0000_0000;

/// What those bits hold: version 4, variant `10`.
pub const RANDOM_MARK: u128 = 0x0000_0000_0000_4000_8000_0000_0000_0000;

/// Identifies one shape of a scene.
#[derive(Clone, Copy, Debug, PartialEq, Eq, Hash, Structural)]
pub struct ShapeId {
    value: u128,
}

impl View for ShapeId {
    type V = u128;

    /// The 128 bits of the identifier.
    closed spec fn view(&self) -> u128 {
        self.value
    }
}

impl ShapeId {
    /// Whether the identifier has the shape of one drawn at random.
    pub open spec fn is_random(&self) -> bool {
        self@ & FIXED_FIELDS == RANDOM_MARK
    }

    /// The identifier with the given bits.
    pub fn from_u128(value: u128) -> (id: Self)
        ensures
            id@ == value,
    {
        ShapeId { value }
    }

    /// The bits of the identifier.
    pub fn as_u128(&self) -> (value: u128)
        ensures
            value == self@,
    {
        self.value
    }

    /// A fresh identifier, drawn at random.
    pub fn generate() -> (id: Self)
        ensures
            id.is_random(),
    {
        ShapeId { value: random_uuid_bits() }
    }

    /// Two identifiers with the same bits are the same identifier.
    pub proof fn lemma_same_bits(a: Self, b: Self)
        ensures
            a@ == b@ <==> a == b,
    {
    }
}

/// `uuid::Uuid::new_v4`, read as a number by `uuid::Uuid::as_u128`.
///
/// `new_v4` takes 128 bits from the operating system's random source, sets
/// the version nibble to `0100` and the two variant bits to `10`, and makes
/// the UUID of that number; `as_u128` reads the number back. The contract
/// claims those six bits and nothing of the other 122. `new_v4` panics if
/// the operating system hands out no random bytes.
#[verifier::external_body]
fn random_uuid_bits() -> (bits: u128)
    ensures
        bits & FIXED_FIELDS == RANDOM_MARK,
{
    uuid::Uuid::new_v4().as_u128()
}

/// Why a scene cannot be rendered.
#[derive(Clone, Copy, Debug, PartialEq, Eq, Structural)]
pub enum SceneError {
    /// The transform has no inverse.
    NotInvertible,
    /// What was to be a ray does not start at a point or does not follow a
    /// vector, as when the inverse of a transform does not map points to
    /// points and vectors to vectors.
    NotARay,
    /// A crossing names a shape that is not in the scene.
    UnknownShape,
}

/// Whether `local` can be the origin and the direction of a ray of the
/// world in the space of a shape with the given transform: what the inverse
/// of the transform makes of them.
pub open spec fn is_local<T, A: Arithmetic<T>>(
    arith: &A,
    transform: Matrix<T>,
    origin: Tuple<T>,
    direction: Tuple<T>,
    local: (Tuple<T>, Tuple<T>),
) -> bool {
    exists|inv: Matrix<T>|
        #[trigger] is_inverse(arith, transform, Some(inv)) && is_image(arith, inv, origin, local.0)
            && is_image(arith, inv, direction, local.1)
}

/// Whether `normal` can be the normal of a shape at a point of the world,
/// before it is brought to length one, given the inverse of the shape's
/// transform and the shape's own answer `local_normal` at `local_point`:
/// the point is mapped by the inverse, the answer by the transpose of the
/// inverse, and the fourth component of what comes out is set to `zero`.
pub open spec fn is_world_normal<T, A: Arithmetic<T>>(
    arith: &A,
    inverse: Matrix<T>,
    point: Tuple<T>,
    local_point: Tuple<T>,
    local_normal: Tuple<T>,
    zero: T,
    normal: Tuple<T>,
) -> bool {
    &&& is_image(arith, inverse, point, local_point)
    &&& exists|transposed: Matrix<T>, carried: Tuple<T>|
        {
            &&& is_transpose_of(transposed, inverse)
            &&& transposed.wf()
            &&& #[trigger] is_image(arith, transposed, local_normal, carried)
            &&& normal == (Tuple { x: carried.x, y: carried.y, z: carried.z, w: zero })
        }
}

/// The origin and the direction of a ray of the world in the space of a
/// shape with the given transform. The transform has to have an inverse.
pub fn to_local<T: Copy, A: Arithmetic<T>>(
    transform: &Matrix<T>,
    origin: &Tuple<T>,
    direction: &Tuple<T>,
    arith: &A,
) -> (local: (Tuple<T>, Tuple<T>))
    requires
        transform.spec_width() == 4,
        transform.spec_height() == 4,
        invertible(arith, *transform),
    ensures
        is_local(arith, *transform, *origin, *direction, local),
{
    let inv = transform.inverted(arith);
    let local = (inv.mul_tuple(origin, arith), inv.mul_tuple(direction, arith));
    proof {
        assert(is_inverse(arith, *transform, Some(inv)));
    }
    local
}

/// What every shape holds: an identity, a transform that sets it into the
/// world, and a material.
pub trait ShapeBase {
    /// The identity of the shape.
    spec fn spec_id(&self) -> ShapeId;

    /// The transform from the space of the shape to the space of the world.
    spec fn spec_transform(&self) -> Matrix<u64>;

    /// The material of the shape.
    spec fn spec_material(&self) -> Material;

    /// The identity of the shape.
    fn id(&self) -> (id: ShapeId)
        ensures
            id == self.spec_id(),
    ;

    /// The transform from the space of the shape to the space of the world.
    fn transform(&self) -> (transform: &Matrix<u64>)
        ensures
            *transform == self.spec_transform(),
    ;

    /// The material of the shape.
    fn material(&self) -> (material: &Material)
        ensures
            *material == self.spec_material(),
    ;

    /// Gives the shape another transform.
    fn set_transform(&mut self, transform: Matrix<u64>)
        ensures
            final(self).spec_transform() == transform,
            final(self).spec_id() == old(self).spec_id(),
            final(self).spec_material() == old(self).spec_material(),
    ;

    /// Gives the shape another material.
    fn set_material(&mut self, material: Material)
        ensures
            final(self).spec_material() == material,
            final(self).spec_id() == old(self).spec_id(),
            final(self).spec_transform() == old(self).spec_transform(),
    ;
}

/// What a shape knows of itself, in its own space: what a ray crosses of
/// it, and where its normals point.
pub trait Shape<A: Arithmetic<u64>>: ShapeBase {
    /// What a ray of the shape's own space crosses of the shape.
    fn local_interception(&self, local_space_ray: Ray, arith: &A) -> Option<Vec<Intersection>>;

    /// The normal of the shape at a point of its own space.
    fn local_normal_at(&self, point: Tuple<u64>, arith: &A) -> Tuple<u64>;
}

/// Whether a shape can be used: its transform has four rows and columns,
/// and an inverse.
pub open spec fn usable<A: Arithmetic<u64>, S: ShapeBase>(arith: &A, shape: &S) -> bool {
    &&& shape.spec_transform().spec_width() == 4
    &&& shape.spec_transform().spec_height() == 4
    &&& invertible(arith, shape.spec_transform())
}

/// Whether `xs` can be what a ray of the world crosses of a shape: the
/// shape's own answer for the ray in its own space, or an error where the
/// ray is no ray there.
pub open spec fn is_crossed<A: Arithmetic<u64>, S: Shape<A>>(
    arith: &A,
    shape: &S,
    ray: Ray,
    xs: Result<Option<Vec<Intersection>>, SceneError>,
) -> bool {
    exists|local: (Tuple<u64>, Tuple<u64>)|
        #[trigger] is_local(arith, shape.spec_transform(), ray.origin, ray.direction, local) && if
            spec_is_point(local.0.w) && spec_is_vector(local.1.w) {
            xs matches Ok(found) && call_ensures(
                S::local_interception,
                (shape, Ray { origin: local.0, direction: local.1 }, arith),
                found,
            )
        } else {
            xs == Err::<Option<Vec<Intersection>>, SceneError>(SceneError::NotARay)
        }
}

/// Whether `unit` can be the normal of a shape at a point of the world:
/// the shape's own answer in its own space, carried back into the world
/// and brought to length one.
pub open spec fn is_normal<A: Arithmetic<u64>, S: Shape<A>>(
    arith: &A,
    shape: &S,
    point: Tuple<u64>,
    unit: Tuple<u64>,
) -> bool {
    exists|inv: Matrix<u64>, local_point: Tuple<u64>, local_normal: Tuple<u64>, long: Tuple<u64>|
        {
            &&& is_inverse(arith, shape.spec_transform(), Some(inv))
            &&& call_ensures(S::local_normal_at, (shape, local_point, arith), local_normal)
            &&& #[trigger] is_world_normal(arith, inv, point, local_point, local_normal, ZERO, long)
            &&& functional(arith) ==> unit == normalized(arith, long)
        }
}

/// What a ray of the world crosses of a shape: the ray is carried into the
/// space of the shape, and the shape says what it crosses there. The
/// transform of the shape has to have an inverse.
pub fn intersect<A: Arithmetic<u64>, S: Shape<A>>(shape: &S, ray: Ray, arith: &A) -> (xs: Result<
    Option<Vec<Intersection>>,
    SceneError,
>)
    requires
        usable(arith, shape),
    ensures
        is_crossed(arith, shape, ray, xs),
{
    let local = to_local(shape.transform(), &ray.origin, &ray.direction, arith);
    let xs = if local.0.is_point() && local.1.is_vector() {
        Ok(shape.local_interception(Ray::new(local.0, local.1), arith))
    } else {
        Err(SceneError::NotARay)
    };
    proof {
        assert(is_local(arith, shape.spec_transform(), ray.origin, ray.direction, local));
    }
    xs
}

/// The normal of a shape at a point of the world, of length one. The
/// transform of the shape has to have an inverse.
pub fn normal_at<A: Arithmetic<u64>, S: Shape<A>>(shape: &S, point: Tuple<u64>, arith: &A) -> (unit:
    Tuple<u64>)
    requires
        usable(arith, shape),
    ensures
        is_normal(arith, shape, point, unit),
{
    let inv = shape.transform().inverted(arith);
    let local_point = inv.mul_tuple(&point, arith);
    let local_normal = shape.local_normal_at(local_point, arith);
    let transposed = inv.transpose();
    let carried = transposed.mul_tuple(&local_normal, arith);
    let long = Tuple { x: carried.x, y: carried.y, z: carried.z, w: ZERO };
    let unit = long.normalize(arith);
    proof {
        assert(is_transpose_of(transposed, inv) && transposed.wf() && is_image(
            arith,
            transposed,
            local_normal,
            carried,
        ));
        assert(is_world_normal(arith, inv, point, local_point, local_normal, ZERO, long));
    }
    unit
}

} // verus!
