//! The plane through the origin of its own space, with the y axis as normal.
use super::{Shape, ShapeBase, ShapeId};
use crate::intersection::Intersection;
use crate::materials::Material;
use crate::math::arithmetic::{functional, quotient, Arithmetic};
use crate::math::float::{abs, negate, spec_abs, spec_negate, EPSILON, MINUS_ONE, ONE, ZERO};
use crate::math::matrix::Matrix;
use crate::math::order::{less_than, spec_less_than};
use crate::math::tuple::Tuple;
use crate::ray::Ray;
use crate::shape::sphere::same_crossings;
use vstd::prelude::*;

verus! {

/// A plane: in its own space the plane of the points with `y` zero.
#[derive(Debug)]
pub struct Plane {
    _id: ShapeId,
    /// The transform that sets the plane into the world.
    pub transform: Matrix<u64>,
    /// What the plane is made of.
    pub material: Material,
}

/// The crossing of a ray with the plane: none where the ray runs alongside,
/// its direction rising or falling by less than the tolerance; else the
/// one at `-origin.y / direction.y`.
pub open spec fn plane_crossings<A: Arithmetic<u64>>(arith: &A, ray: Ray, id: ShapeId) -> Option<
    Seq<Intersection>,
> {
    if spec_less_than(spec_abs(ray.direction.y), EPSILON) {
        None
    } else {
        Some(
            seq![
                Intersection {
                    t: quotient(arith, spec_negate(ray.origin.y), ray.direction.y),
                    object: id,
                },
            ],
        )
    }
}

/// Whether the arithmetic divides `x` by one and by minus one as the
/// numbers do: divided by one `x` is left as it is, and divided by minus
/// one it changes its sign.
pub open spec fn divides_by_units<A: Arithmetic<u64>>(arith: &A, x: u64) -> bool {
    &&& quotient(arith, x, ONE) == x
    &&& quotient(arith, x, MINUS_ONE) == spec_negate(x)
}

/// A ray that runs alongside the plane never crosses it. A ray that comes
/// straight down on the plane from the height `h`, or straight up to it
/// from the depth `h`, crosses it once, as far from its origin as the
/// origin is from the plane: at `t = h`. The second holds of an arithmetic
/// that divides by one and by minus one as the numbers do.
pub proof fn lemma_plane_crossings<A: Arithmetic<u64>>(arith: &A, ray: Ray, id: ShapeId, h: u64)
    requires
        divides_by_units(arith, spec_negate(ray.origin.y)),
    ensures
        spec_less_than(spec_abs(ray.direction.y), EPSILON) ==> plane_crossings(arith, ray, id) is None,
        ray.direction.y == MINUS_ONE && ray.origin.y == h ==> plane_crossings(arith, ray, id) == Some(
            seq![Intersection { t: h, object: id }],
        ),
        ray.direction.y == ONE && ray.origin.y == spec_negate(h) ==> plane_crossings(arith, ray, id)
            == Some(seq![Intersection { t: h, object: id }]),
{
    assert(spec_negate(spec_negate(h)) == h);
    assert(spec_abs(MINUS_ONE) == ONE);
    assert(!spec_less_than(ONE, EPSILON));
}

impl Plane {
    /// The plane with the given transform and material, under a fresh
    /// identity.
    pub fn new(transform: Matrix<u64>, material: Material) -> (plane: Self)
        ensures
            plane.spec_id().is_random(),
            plane.spec_transform() == transform,
            plane.spec_material() == material,
    {
        Self { _id: ShapeId::generate(), transform, material }
    }

    /// The plane with the given transform, of plain material.
    pub fn new_with_transform(transform: Matrix<u64>) -> (plane: Self)
        ensures
            plane.spec_id().is_random(),
            plane.spec_transform() == transform,
            plane.spec_material() == crate::materials::plain(),
    {
        Self::new(transform, Material::default())
    }

    /// The plane of the world's points with `y` zero, of the given
    /// material.
    pub fn new_with_material(material: Material) -> (plane: Self)
        ensures
            plane.spec_id().is_random(),
            plane.spec_material() == material,
            plane.spec_transform()@ == crate::math::matrix::transform::spec_identity(ZERO, ONE),
            plane.spec_transform().spec_width() == 4,
            plane.spec_transform().spec_height() == 4,
    {
        Self::new(Matrix::identity(), material)
    }
}

impl Default for Plane {
    /// The plane of the world's points with `y` zero, of plain material.
    fn default() -> (plane: Self)
        ensures
            plane.spec_id().is_random(),
            plane.spec_material() == crate::materials::plain(),
            plane.spec_transform()@ == crate::math::matrix::transform::spec_identity(ZERO, ONE),
            plane.spec_transform().spec_width() == 4,
            plane.spec_transform().spec_height() == 4,
    {
        Self::new(Matrix::identity(), Material::default())
    }
}

impl Clone for Plane {
    /// The same plane, under the same identity.
    fn clone(&self) -> (copy: Self)
        ensures
            copy.spec_id() == self.spec_id(),
            copy.spec_material() == self.spec_material(),
            copy.spec_transform().spec_width() == self.spec_transform().spec_width(),
            copy.spec_transform().spec_height() == self.spec_transform().spec_height(),
            copy.spec_transform()@ == self.spec_transform()@,
    {
        Self { _id: self._id, transform: self.transform.clone(), material: self.material }
    }
}

impl ShapeBase for Plane {
    closed spec fn spec_id(&self) -> ShapeId {
        self._id
    }

    closed spec fn spec_transform(&self) -> Matrix<u64> {
        self.transform
    }

    closed spec fn spec_material(&self) -> Material {
        self.material
    }

    fn id(&self) -> (id: ShapeId) {
        self._id
    }

    fn transform(&self) -> (transform: &Matrix<u64>) {
        &self.transform
    }

    fn material(&self) -> (material: &Material) {
        &self.material
    }

    fn set_transform(&mut self, transform: Matrix<u64>) {
        self.transform = transform
    }

    fn set_material(&mut self, material: Material) {
        self.material = material
    }
}

impl<A: Arithmetic<u64>> Shape<A> for Plane {
    /// The crossing of the ray with the plane.
    fn local_interception(&self, local_space_ray: Ray, arith: &A) -> (xs: Option<Vec<Intersection>>)
        ensures
            functional(arith) ==> same_crossings(
                xs,
                plane_crossings(arith, local_space_ray, self.spec_id()),
            ),
            xs is Some <==> !spec_less_than(spec_abs(local_space_ray.direction.y), EPSILON),
            xs matches Some(found) ==> found.len() == 1 && found[0].object == self.spec_id(),
    {
        if less_than(abs(local_space_ray.direction.y), EPSILON) {
            None
        } else {
            let t = arith.over(negate(local_space_ray.origin.y), local_space_ray.direction.y);
            let mut found: Vec<Intersection> = Vec::new();
            found.push(Intersection::new(t, self._id));
            proof {
                if functional(arith) {
                    assert(found@ =~= plane_crossings(arith, local_space_ray, self.spec_id())->0);
                }
            }
            Some(found)
        }
    }

    /// The normal of the plane is the same everywhere: the y axis.
    fn local_normal_at(&self, point: Tuple<u64>, arith: &A) -> (n: Tuple<u64>)
        ensures
            n == (Tuple { x: ZERO, y: ONE, z: ZERO, w: ZERO }),
    {
        Tuple::vector(ZERO, ONE, ZERO)
    }
}

} // verus!
