//! The unit sphere about the origin of its own space.
use super::{Shape, ShapeBase, ShapeId};
use crate::intersection::Intersection;
use crate::materials::Material;
use crate::math::arithmetic::{difference, functional, product, quotient, root, sum, Arithmetic};
use crate::math::float::{negate, spec_negate, FOUR, ONE, TWO, ZERO};
use crate::math::matrix::Matrix;
use crate::math::order::{less_than, spec_less_than};
use crate::math::tuple::{dot_product, tuple_difference, Tuple};
use crate::ray::Ray;
use vstd::prelude::*;

verus! {

/// A sphere: in its own space the sphere of radius one about the origin.
#[derive(Debug, PartialEq)]
pub struct Sphere {
    _id: ShapeId,
    /// The transform that sets the sphere into the world.
    pub transform: Matrix<u64>,
    /// What the sphere is made of.
    pub material: Material,
}

/// The vector from the centre of the sphere to the origin of the ray.
pub open spec fn from_centre<A: Arithmetic<u64>>(arith: &A, ray: Ray) -> Tuple<u64> {
    tuple_difference(arith, ray.origin, Tuple { x: ZERO, y: ZERO, z: ZERO, w: ONE })
}

/// The coefficient of the square in the quadratic whose roots are the
/// crossings: `direction · direction`.
pub open spec fn quadratic_a<A: Arithmetic<u64>>(arith: &A, ray: Ray) -> u64 {
    dot_product(arith, ray.direction, ray.direction)
}

/// The linear coefficient: `2 * direction · (origin - centre)`.
pub open spec fn quadratic_b<A: Arithmetic<u64>>(arith: &A, ray: Ray) -> u64 {
    product(arith, TWO, dot_product(arith, ray.direction, from_centre(arith, ray)))
}

/// The constant: `(origin - centre) · (origin - centre) - 1`.
pub open spec fn quadratic_c<A: Arithmetic<u64>>(arith: &A, ray: Ray) -> u64 {
    difference(arith, dot_product(arith, from_centre(arith, ray), from_centre(arith, ray)), ONE)
}

/// The discriminant `b * b - 4 * a * c`.
pub open spec fn discriminant<A: Arithmetic<u64>>(arith: &A, ray: Ray) -> u64 {
    difference(
        arith,
        product(arith, quadratic_b(arith, ray), quadratic_b(arith, ray)),
        product(arith, product(arith, FOUR, quadratic_a(arith, ray)), quadratic_c(arith, ray)),
    )
}

/// The crossings of a ray with the unit sphere: none where the
/// discriminant is negative, else the two roots `(-b - root) / (2 * a)` and
/// `(-b + root) / (2 * a)`, in this order, also where they are the same or
/// lie behind the origin of the ray.
pub open spec fn sphere_crossings<A: Arithmetic<u64>>(arith: &A, ray: Ray, id: ShapeId) -> Option<
    Seq<Intersection>,
> {
    let d = discriminant(arith, ray);
    if spec_less_than(d, ZERO) {
        None
    } else {
        let minus_b = spec_negate(quadratic_b(arith, ray));
        let twice_a = product(arith, TWO, quadratic_a(arith, ray));
        Some(
            seq![
                Intersection {
                    t: quotient(arith, difference(arith, minus_b, root(arith, d)), twice_a),
                    object: id,
                },
                Intersection {
                    t: quotient(arith, sum(arith, minus_b, root(arith, d)), twice_a),
                    object: id,
                },
            ],
        )
    }
}

/// Whether the list holds the given crossings, or there are none of either.
pub open spec fn same_crossings(found: Option<Vec<Intersection>>, wanted: Option<Seq<Intersection>>) -> bool {
    match (found, wanted) {
        (None, None) => true,
        (Some(f), Some(w)) => f@ == w,
        _ => false,
    }
}

impl Sphere {
    /// The sphere with the given transform and material, under a fresh
    /// identity.
    pub fn new(transform: Matrix<u64>, material: Material) -> (sphere: Self)
        ensures
            sphere.spec_id().is_random(),
            sphere.spec_transform() == transform,
            sphere.spec_material() == material,
    {
        Self { _id: ShapeId::generate(), transform, material }
    }

    /// The sphere with the given transform, of plain material.
    pub fn new_with_transform(transform: Matrix<u64>) -> (sphere: Self)
        ensures
            sphere.spec_id().is_random(),
            sphere.spec_transform() == transform,
            sphere.spec_material() == crate::materials::plain(),
    {
        Self::new(transform, Material::default())
    }

    /// The unit sphere about the origin of the world, of the given
    /// material.
    pub fn new_with_material(material: Material) -> (sphere: Self)
        ensures
            sphere.spec_id().is_random(),
            sphere.spec_material() == material,
            sphere.spec_transform()@ == crate::math::matrix::transform::spec_identity(ZERO, ONE),
            sphere.spec_transform().spec_width() == 4,
            sphere.spec_transform().spec_height() == 4,
    {
        Self::new(Matrix::identity(), material)
    }
}

impl Default for Sphere {
    /// The unit sphere about the origin of the world, of plain material.
    fn default() -> (sphere: Self)
        ensures
            sphere.spec_id().is_random(),
            sphere.spec_material() == crate::materials::plain(),
            sphere.spec_transform()@ == crate::math::matrix::transform::spec_identity(ZERO, ONE),
            sphere.spec_transform().spec_width() == 4,
            sphere.spec_transform().spec_height() == 4,
    {
        Self::new(Matrix::identity(), Material::default())
    }
}

impl ShapeBase for Sphere {
    closed spec fn spec_id(&self) -> ShapeId {
        self._id
    }

    closed spec fn spec_transform(&self) -> Matrix<u64> {
        self.transform
    }

    closed spec fn spec_material(&self) -> Material {
        self.material
    }

    fn id(&self) -> (id: ShapeId) {
        self._id
    }

    fn transform(&self) -> (transform: &Matrix<u64>) {
        &self.transform
    }

    fn material(&self) -> (material: &Material) {
        &self.material
    }

    fn set_transform(&mut self, transform: Matrix<u64>) {
        self.transform = transform
    }

    fn set_material(&mut self, material: Material) {
        self.material = material
    }
}

impl<A: Arithmetic<u64>> Shape<A> for Sphere {
    /// The normal at a point of the sphere is the vector from the centre to
    /// the point.
    fn local_normal_at(&self, point: Tuple<u64>, arith: &A) -> (n: Tuple<u64>)
        ensures
            functional(arith) ==> n == tuple_difference(
                arith,
                point,
                Tuple { x: ZERO, y: ZERO, z: ZERO, w: ZERO },
            ),
    {
        point.sub(&Tuple { x: ZERO, y: ZERO, z: ZERO, w: ZERO }, arith)
    }

    /// The crossings of the ray with the sphere, the nearer first along the
    /// ray.
    fn local_interception(&self, local_space_ray: Ray, arith: &A) -> (xs: Option<Vec<Intersection>>)
        ensures
            functional(arith) ==> same_crossings(
                xs,
                sphere_crossings(arith, local_space_ray, self.spec_id()),
            ),
            xs matches Some(found) ==> found.len() == 2 && found[0].object == self.spec_id()
                && found[1].object == self.spec_id(),
    {
        let ray = local_space_ray;
        let s2r = ray.origin.sub(&Tuple::point(ZERO, ZERO, ZERO), arith);

        let a = ray.direction.dot(&ray.direction, arith);
        let b = arith.times(TWO, ray.direction.dot(&s2r, arith));
        let c = arith.minus(s2r.dot(&s2r, arith), ONE);

        let discriminant = arith.minus(arith.times(b, b), arith.times(arith.times(FOUR, a), c));
        if less_than(discriminant, ZERO) {
            return None;
        }
        let disroot = arith.sqrt(discriminant);
        let twice_a = arith.times(TWO, a);
        let near = Intersection::new(arith.over(arith.minus(negate(b), disroot), twice_a), self._id);
        let far = Intersection::new(arith.over(arith.plus(negate(b), disroot), twice_a), self._id);
        let mut found: Vec<Intersection> = Vec::new();
        found.push(near);
        found.push(far);
        proof {
            if functional(arith) {
                assert(found@ =~= sphere_crossings(arith, local_space_ray, self.spec_id())->0);
            }
        }
        Some(found)
    }
}

} // verus!
