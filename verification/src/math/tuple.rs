//! Tuples of four components: points and vectors, and their algebra.
//!
//! A tuple stands for a point where its fourth component is one and for a
//! vector where it is zero. The components of a [`Tuple`] are of any type;
//! the algebra is that of tuples of numbers, held as bit patterns. Sums,
//! differences and products are the caller's arithmetic, component by
//! component; changing signs and telling points from vectors is done on
//! the bits.
use crate::math::arithmetic::{
    difference, dot_of, functional, product, quotient, root, sum, sum_of_products, whole, Arithmetic,
};
use crate::math::float::{equal, negate, spec_equal, spec_negate, ONE, TWO, ZERO};
use crate::math::order::{equal_to, spec_equal_to};
use vstd::prelude::*;

verus! {

/// Four components: three coordinates and the component that tells points
/// from vectors.
#[derive(Debug, PartialEq)]
pub struct Tuple<T> {
    /// The first coordinate.
    pub x: T,
    /// The second coordinate.
    pub y: T,
    /// The third coordinate.
    pub z: T,
    /// One for a point, zero for a vector.
    pub w: T,
}

impl<T> View for Tuple<T> {
    type V = Seq<T>;

    /// The four components in order.
    open spec fn view(&self) -> Seq<T> {
        seq![self.x, self.y, self.z, self.w]
    }
}

impl<T: Copy> Clone for Tuple<T> {
    /// The same tuple.
    fn clone(&self) -> (copy: Self)
        ensures
            copy == *self,
    {
        *self
    }
}

impl<T: Copy> Copy for Tuple<T> {

}

impl<T: Copy> Tuple<T> {
    /// The tuple of the given components.
    pub fn new(x: T, y: T, z: T, w: T) -> (t: Self)
        ensures
            t == (Tuple { x, y, z, w }),
    {
        Tuple { x, y, z, w }
    }

    /// The four components in order, as a list.
    pub fn components(&self) -> (list: Vec<T>)
        ensures
            list@ == self@,
    {
        let mut list: Vec<T> = Vec::new();
        list.push(self.x);
        list.push(self.y);
        list.push(self.z);
        list.push(self.w);
        proof {
            assert(list@ =~= self@);
        }
        list
    }
}

/// Whether a tuple with fourth component `w` is a point: `w == 1`.
pub open spec fn spec_is_point(w: u64) -> bool {
    spec_equal_to(w, ONE)
}

/// Whether a tuple with fourth component `w` is a vector: `w == 0`.
pub open spec fn spec_is_vector(w: u64) -> bool {
    spec_equal_to(w, ZERO)
}

/// Whether a tuple with fourth component `w` is a point.
pub fn is_point(w: u64) -> (r: bool)
    ensures
        r == spec_is_point(w),
        r <==> w == ONE,
{
    equal_to(w, ONE)
}

/// Whether a tuple with fourth component `w` is a vector. Zero of either
/// sign makes a vector.
pub fn is_vector(w: u64) -> (r: bool)
    ensures
        r == spec_is_vector(w),
        r <==> crate::math::order::spec_is_zero(w),
{
    equal_to(w, ZERO)
}

/// Nothing is both a point and a vector.
pub proof fn lemma_point_or_vector(w: u64)
    ensures
        !(spec_is_point(w) && spec_is_vector(w)),
{
}

/// One is the encoding of the number one.
pub proof fn lemma_one_is_one()
    ensures
        crate::math::order::spec_value(ONE) == vstd::arithmetic::power2::pow2(1074),
        crate::math::order::spec_value(ZERO) == 0,
{
    // The exponent field of ONE is 1023, its fraction is zero: in units of
    // 2^-1074 that is 2^52 * 2^1022.
    let h = crate::math::order::HIDDEN_BIT as int;
    assert((ONE as int) / h == 1023 && (ONE as int) % h == 0);
    vstd::arithmetic::power2::lemma2_to64_rest();
    vstd::arithmetic::power2::lemma_pow2_adds(52, 1022);
    assert(vstd::arithmetic::power2::pow2(52) == 0x10_0000_0000_0000);
}

/// The sum of two tuples, component by component.
pub open spec fn tuple_sum<A: Arithmetic<u64>>(arith: &A, a: Tuple<u64>, b: Tuple<u64>) -> Tuple<u64> {
    Tuple {
        x: sum(arith, a.x, b.x),
        y: sum(arith, a.y, b.y),
        z: sum(arith, a.z, b.z),
        w: sum(arith, a.w, b.w),
    }
}

/// The difference of two tuples, component by component.
pub open spec fn tuple_difference<A: Arithmetic<u64>>(
    arith: &A,
    a: Tuple<u64>,
    b: Tuple<u64>,
) -> Tuple<u64> {
    Tuple {
        x: difference(arith, a.x, b.x),
        y: difference(arith, a.y, b.y),
        z: difference(arith, a.z, b.z),
        w: difference(arith, a.w, b.w),
    }
}

/// The tuple with the sign of every component changed.
pub open spec fn tuple_negative(a: Tuple<u64>) -> Tuple<u64> {
    Tuple { x: spec_negate(a.x), y: spec_negate(a.y), z: spec_negate(a.z), w: spec_negate(a.w) }
}

/// The tuple with every component multiplied by `k`.
pub open spec fn scaled<A: Arithmetic<u64>>(arith: &A, a: Tuple<u64>, k: u64) -> Tuple<u64> {
    Tuple {
        x: product(arith, a.x, k),
        y: product(arith, a.y, k),
        z: product(arith, a.z, k),
        w: product(arith, a.w, k),
    }
}

/// The tuple with every component divided by `k`.
pub open spec fn shrunk<A: Arithmetic<u64>>(arith: &A, a: Tuple<u64>, k: u64) -> Tuple<u64> {
    Tuple {
        x: quotient(arith, a.x, k),
        y: quotient(arith, a.y, k),
        z: quotient(arith, a.z, k),
        w: quotient(arith, a.w, k),
    }
}

/// The dot product `a.x * b.x + a.y * b.y + a.z * b.z + a.w * b.w`, added
/// up from the left.
pub open spec fn dot_product<A: Arithmetic<u64>>(arith: &A, a: Tuple<u64>, b: Tuple<u64>) -> u64 {
    sum(
        arith,
        sum(
            arith,
            sum(arith, product(arith, a.x, b.x), product(arith, a.y, b.y)),
            product(arith, a.z, b.z),
        ),
        product(arith, a.w, b.w),
    )
}

/// The cross product of two vectors: the vector `(a.y * b.z - a.z * b.y,
/// a.z * b.x - a.x * b.z, a.x * b.y - a.y * b.x)`.
pub open spec fn cross_product<A: Arithmetic<u64>>(
    arith: &A,
    a: Tuple<u64>,
    b: Tuple<u64>,
) -> Tuple<u64> {
    Tuple {
        x: difference(arith, product(arith, a.y, b.z), product(arith, a.z, b.y)),
        y: difference(arith, product(arith, a.z, b.x), product(arith, a.x, b.z)),
        z: difference(arith, product(arith, a.x, b.y), product(arith, a.y, b.x)),
        w: ZERO,
    }
}

/// The magnitude: the square root of the sum of the squares of all four
/// components, added up from the left.
pub open spec fn magnitude_of<A: Arithmetic<u64>>(arith: &A, a: Tuple<u64>) -> u64 {
    root(
        arith,
        sum(
            arith,
            sum(
                arith,
                sum(arith, product(arith, a.x, a.x), product(arith, a.y, a.y)),
                product(arith, a.z, a.z),
            ),
            product(arith, a.w, a.w),
        ),
    )
}

/// The tuple divided by its magnitude.
pub open spec fn normalized<A: Arithmetic<u64>>(arith: &A, a: Tuple<u64>) -> Tuple<u64> {
    shrunk(arith, a, magnitude_of(arith, a))
}

/// `v` reflected about `normal`: `v - normal * 2 * (v · normal)`.
pub open spec fn reflected<A: Arithmetic<u64>>(
    arith: &A,
    v: Tuple<u64>,
    normal: Tuple<u64>,
) -> Tuple<u64> {
    tuple_difference(
        arith,
        v,
        scaled(arith, scaled(arith, normal, TWO), dot_product(arith, v, normal)),
    )
}

/// Whether two tuples are equal within the tolerance, component by
/// component.
pub open spec fn tuple_equal<A: Arithmetic<u64>>(arith: &A, a: Tuple<u64>, b: Tuple<u64>) -> bool {
    &&& spec_equal(arith, a.x, b.x)
    &&& spec_equal(arith, a.y, b.y)
    &&& spec_equal(arith, a.z, b.z)
    &&& spec_equal(arith, a.w, b.w)
}

/// The vector `(x, y, z)`.
pub fn vector(x: u64, y: u64, z: u64) -> (t: Tuple<u64>)
    ensures
        t == (Tuple { x, y, z, w: ZERO }),
        spec_is_vector(t.w),
{
    Tuple::vector(x, y, z)
}

/// The vector of whole numbers `(x, y, z)`.
pub fn vectori<A: Arithmetic<u64>>(x: i32, y: i32, z: i32, arith: &A) -> (t: Tuple<u64>)
    ensures
        spec_is_vector(t.w),
        functional(arith) ==> t == (Tuple {
            x: whole(arith, x),
            y: whole(arith, y),
            z: whole(arith, z),
            w: ZERO,
        }),
{
    Tuple::vectori(x, y, z, arith)
}

/// The point `(x, y, z)`.
pub fn point(x: u64, y: u64, z: u64) -> (t: Tuple<u64>)
    ensures
        t == (Tuple { x, y, z, w: ONE }),
        spec_is_point(t.w),
{
    Tuple::point(x, y, z)
}

/// The point of whole numbers `(x, y, z)`.
pub fn pointi<A: Arithmetic<u64>>(x: i32, y: i32, z: i32, arith: &A) -> (t: Tuple<u64>)
    ensures
        spec_is_point(t.w),
        functional(arith) ==> t == (Tuple {
            x: whole(arith, x),
            y: whole(arith, y),
            z: whole(arith, z),
            w: ONE,
        }),
{
    Tuple::pointi(x, y, z, arith)
}

impl Tuple<u64> {
    /// The vector `(x, y, z)`.
    pub fn vector(x: u64, y: u64, z: u64) -> (t: Self)
        ensures
            t == (Tuple { x, y, z, w: ZERO }),
            spec_is_vector(t.w),
    {
        Tuple { x, y, z, w: ZERO }
    }

    /// The vector of whole numbers `(x, y, z)`.
    pub fn vectori<A: Arithmetic<u64>>(x: i32, y: i32, z: i32, arith: &A) -> (t: Self)
        ensures
            spec_is_vector(t.w),
            functional(arith) ==> t == (Tuple {
                x: whole(arith, x),
                y: whole(arith, y),
                z: whole(arith, z),
                w: ZERO,
            }),
    {
        Tuple { x: arith.number(x), y: arith.number(y), z: arith.number(z), w: ZERO }
    }

    /// The point `(x, y, z)`.
    pub fn point(x: u64, y: u64, z: u64) -> (t: Self)
        ensures
            t == (Tuple { x, y, z, w: ONE }),
            spec_is_point(t.w),
    {
        Tuple { x, y, z, w: ONE }
    }

    /// The point of whole numbers `(x, y, z)`.
    pub fn pointi<A: Arithmetic<u64>>(x: i32, y: i32, z: i32, arith: &A) -> (t: Self)
        ensures
            spec_is_point(t.w),
            functional(arith) ==> t == (Tuple {
                x: whole(arith, x),
                y: whole(arith, y),
                z: whole(arith, z),
                w: ONE,
            }),
    {
        Tuple { x: arith.number(x), y: arith.number(y), z: arith.number(z), w: ONE }
    }

    /// Whether the tuple is a point: its fourth component is one.
    pub fn is_point(&self) -> (r: bool)
        ensures
            r == spec_is_point(self.w),
    {
        is_point(self.w)
    }

    /// Whether the tuple is a vector: its fourth component is zero.
    pub fn is_vector(&self) -> (r: bool)
        ensures
            r == spec_is_vector(self.w),
    {
        is_vector(self.w)
    }

    /// The sum of two tuples.
    pub fn add<A: Arithmetic<u64>>(&self, other: &Self, arith: &A) -> (r: Self)
        ensures
            functional(arith) ==> r == tuple_sum(arith, *self, *other),
    {
        Tuple {
            x: arith.plus(self.x, other.x),
            y: arith.plus(self.y, other.y),
            z: arith.plus(self.z, other.z),
            w: arith.plus(self.w, other.w),
        }
    }

    /// The difference of two tuples.
    pub fn sub<A: Arithmetic<u64>>(&self, other: &Self, arith: &A) -> (r: Self)
        ensures
            functional(arith) ==> r == tuple_difference(arith, *self, *other),
    {
        Tuple {
            x: arith.minus(self.x, other.x),
            y: arith.minus(self.y, other.y),
            z: arith.minus(self.z, other.z),
            w: arith.minus(self.w, other.w),
        }
    }

    /// The tuple with the sign of every component changed.
    pub fn neg(&self) -> (r: Self)
        ensures
            r == tuple_negative(*self),
    {
        Tuple { x: negate(self.x), y: negate(self.y), z: negate(self.z), w: negate(self.w) }
    }

    /// The tuple with every component multiplied by `rhs`.
    pub fn mul<A: Arithmetic<u64>>(&self, rhs: u64, arith: &A) -> (r: Self)
        ensures
            functional(arith) ==> r == scaled(arith, *self, rhs),
    {
        Tuple {
            x: arith.times(self.x, rhs),
            y: arith.times(self.y, rhs),
            z: arith.times(self.z, rhs),
            w: arith.times(self.w, rhs),
        }
    }

    /// The magnitude of the tuple, over all four components.
    pub fn magnitude<A: Arithmetic<u64>>(&self, arith: &A) -> (m: u64)
        ensures
            functional(arith) ==> m == magnitude_of(arith, *self),
    {
        let xx = arith.times(self.x, self.x);
        let yy = arith.times(self.y, self.y);
        let zz = arith.times(self.z, self.z);
        let ww = arith.times(self.w, self.w);
        arith.sqrt(arith.plus(arith.plus(arith.plus(xx, yy), zz), ww))
    }

    /// The tuple divided by its magnitude. A tuple of magnitude zero has no
    /// direction, and what comes out is for the arithmetic to say.
    pub fn normalize<A: Arithmetic<u64>>(&self, arith: &A) -> (r: Self)
        ensures
            functional(arith) ==> r == normalized(arith, *self),
    {
        let mag = self.magnitude(arith);
        Tuple {
            x: arith.over(self.x, mag),
            y: arith.over(self.y, mag),
            z: arith.over(self.z, mag),
            w: arith.over(self.w, mag),
        }
    }

    /// The dot product of two tuples.
    pub fn dot<A: Arithmetic<u64>>(&self, other: &Self, arith: &A) -> (d: u64)
        ensures
            functional(arith) ==> d == dot_product(arith, *self, *other),
    {
        let xx = arith.times(self.x, other.x);
        let yy = arith.times(self.y, other.y);
        let zz = arith.times(self.z, other.z);
        let ww = arith.times(self.w, other.w);
        arith.plus(arith.plus(arith.plus(xx, yy), zz), ww)
    }

    /// The cross product of two vectors. It is not defined for points.
    pub fn cross<A: Arithmetic<u64>>(&self, other: &Self, arith: &A) -> (r: Self)
        requires
            spec_is_vector(self.w),
            spec_is_vector(other.w),
        ensures
            spec_is_vector(r.w),
            functional(arith) ==> r == cross_product(arith, *self, *other),
    {
        let x = arith.minus(arith.times(self.y, other.z), arith.times(self.z, other.y));
        let y = arith.minus(arith.times(self.z, other.x), arith.times(self.x, other.z));
        let z = arith.minus(arith.times(self.x, other.y), arith.times(self.y, other.x));
        Tuple::vector(x, y, z)
    }

    /// The tuple reflected about `normal`.
    pub fn reflect<A: Arithmetic<u64>>(&self, normal: &Self, arith: &A) -> (r: Self)
        ensures
            functional(arith) ==> r == reflected(arith, *self, *normal),
    {
        let along = self.dot(normal, arith);
        let twice = normal.mul(TWO, arith);
        self.sub(&twice.mul(along, arith), arith)
    }

    /// Whether two tuples are equal within the tolerance.
    pub fn eq<A: Arithmetic<u64>>(&self, other: &Self, arith: &A) -> (r: bool)
        ensures
            functional(arith) ==> r == tuple_equal(arith, *self, *other),
    {
        equal(self.x, other.x, arith) && equal(self.y, other.y, arith) && equal(
            self.z,
            other.z,
            arith,
        ) && equal(self.w, other.w, arith)
    }
}

/// The dot product of two tuples is the sum of products of their
/// components, taken as lists: what a matrix makes of a tuple, row by row,
/// is the dot product of the tuple with the row.
pub proof fn lemma_dot_of_tuples<A: Arithmetic<u64>>(arith: &A, a: Tuple<u64>, b: Tuple<u64>)
    ensures
        dot_of(arith, a@, b@) == dot_product(arith, a, b),
{
    reveal_with_fuel(sum_of_products, 5);
    assert(a@.len() == 4 && b@.len() == 4);
    assert(a@[0] == a.x && a@[1] == a.y && a@[2] == a.z && a@[3] == a.w);
    assert(b@[0] == b.x && b@[1] == b.y && b@[2] == b.z && b@[3] == b.w);
}

} // verus!
