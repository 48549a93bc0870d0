//! Rays: a point to start from and a vector to follow.
use crate::math::arithmetic::{functional, Arithmetic};
use crate::math::matrix::algebra::image_of;
use crate::math::matrix::Matrix;
use crate::math::tuple::{scaled, spec_is_point, spec_is_vector, tuple_sum, Tuple};
use vstd::prelude::*;

verus! {

/// A ray: the points `origin + t * direction`.
#[derive(Clone, Copy, Debug)]
pub struct Ray {
    /// Where the ray starts.
    pub origin: Tuple<u64>,
    /// Where the ray goes.
    pub direction: Tuple<u64>,
}

/// What a matrix makes of a ray: the ray of the images of its origin and
/// its direction, as long as those are a point and a vector.
pub open spec fn ray_image<A: Arithmetic<u64>>(arith: &A, ray: Ray, matrix: Matrix<u64>) -> Option<Ray> {
    let origin = image_of(arith, matrix, ray.origin);
    let direction = image_of(arith, matrix, ray.direction);
    if spec_is_point(origin.w) && spec_is_vector(direction.w) {
        Some(Ray { origin, direction })
    } else {
        None
    }
}

impl Ray {
    /// Whether the ray starts at a point and follows a vector.
    pub open spec fn wf(&self) -> bool {
        spec_is_point(self.origin.w) && spec_is_vector(self.direction.w)
    }

    /// The ray from `origin` along `direction`. The origin has to be a point
    /// and the direction a vector.
    pub fn new(origin: Tuple<u64>, direction: Tuple<u64>) -> (ray: Self)
        requires
            spec_is_point(origin.w),
            spec_is_vector(direction.w),
        ensures
            ray == (Ray { origin, direction }),
            ray.wf(),
    {
        Self { origin, direction }
    }

    /// The point of the ray at parameter `dst`: `origin + direction * dst`.
    pub fn position<A: Arithmetic<u64>>(&self, dst: u64, arith: &A) -> (p: Tuple<u64>)
        ensures
            functional(arith) ==> p == tuple_sum(arith, self.origin, scaled(arith, self.direction, dst)),
    {
        self.origin.add(&self.direction.mul(dst, arith), arith)
    }

    /// The ray as the matrix maps it: the images of its origin and its
    /// direction. There is none where the image of the origin is no point
    /// or the image of the direction no vector.
    pub fn transform<A: Arithmetic<u64>>(&self, matrix: &Matrix<u64>, arith: &A) -> (ray: Option<Self>)
        requires
            matrix.spec_height() == 4,
        ensures
            ray matches Some(r) ==> r.wf(),
            functional(arith) ==> ray == ray_image(arith, *self, *matrix),
    {
        let origin = matrix.mul_tuple(&self.origin, arith);
        let direction = matrix.mul_tuple(&self.direction, arith);
        if origin.is_point() && direction.is_vector() {
            Some(Ray::new(origin, direction))
        } else {
            None
        }
    }
}

} // verus!
