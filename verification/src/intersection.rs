//! Crossings of a ray with the surfaces of a scene, and the choice of the
//! visible one.
use crate::materials::Material;
use crate::math::arithmetic::{functional, Arithmetic};
use crate::math::float::{EPSILON, ZERO};
use crate::math::order::{at_least_zero, equal_to, less_than, total_key};
use crate::math::order::{spec_at_least_zero, spec_equal_to, spec_less_than, spec_total_key};
use crate::math::tuple::{dot_product, scaled, tuple_negative, tuple_sum, Tuple};
use crate::ray::Ray;
use crate::shape::{is_normal, normal_at, usable, Shape, ShapeId};
use core::cmp::Ordering;
use vstd::prelude::*;

verus! {

/// One crossing: where along the ray it lies, and which shape was crossed.
#[derive(Clone, Copy, Debug)]
pub struct Intersection {
    /// The ray parameter, as the bit pattern of a binary64 number.
    pub t: u64,
    /// The shape that was crossed.
    pub object: ShapeId,
}

impl Intersection {
    /// The crossing of `object` at parameter `t`.
    pub fn new(t: u64, object: ShapeId) -> (i: Self)
        ensures
            i.t == t,
            i.object == object,
    {
        Intersection { t, object }
    }

    /// The place of the crossing in the total order of ray parameters.
    pub open spec fn key(self) -> int {
        spec_total_key(self.t)
    }

    /// Whether the crossing lies at or ahead of the ray's origin: `t >= 0`.
    pub open spec fn ahead(self) -> bool {
        spec_at_least_zero(self.t)
    }
}

impl PartialEq for Intersection {
    /// Two crossings are equal when their parameters are equal as numbers and
    /// they cross the same shape.
    fn eq(&self, other: &Self) -> (r: bool) {
        equal_to(self.t, other.t) && self.object == other.object
    }
}

impl vstd::std_specs::cmp::PartialEqSpecImpl for Intersection {
    /// `==` on crossings is what `eq_spec` says.
    open spec fn obeys_eq_spec() -> bool {
        true
    }

    /// The parameters are equal as numbers, and the shapes are the same.
    open spec fn eq_spec(&self, other: &Self) -> bool {
        spec_equal_to(self.t, other.t) && self.object == other.object
    }
}

/// Whether some crossing of `xs` lies at or ahead of the origin.
pub open spec fn has_hit(xs: Seq<Intersection>) -> bool {
    exists|i: int| 0 <= i < xs.len() && #[trigger] xs[i].ahead()
}

/// Whether `xs[k]` is the hit: it lies at or ahead of the origin, no crossing
/// that does so is nearer, and of those that are as near it comes first.
pub open spec fn is_hit(xs: Seq<Intersection>, k: int) -> bool {
    &&& 0 <= k < xs.len()
    &&& xs[k].ahead()
    &&& forall|j: int| 0 <= j < xs.len() && #[trigger] xs[j].ahead() ==> xs[k].key() <= xs[j].key()
    &&& forall|j: int| 0 <= j < k && #[trigger] xs[j].ahead() ==> xs[k].key() < xs[j].key()
}

/// The hit among `xs`, if there is one.
pub open spec fn spec_hit(xs: Seq<Intersection>) -> Option<Intersection> {
    if has_hit(xs) {
        Some(xs[choose|k: int| is_hit(xs, k)])
    } else {
        None
    }
}

/// At most one index is that of the hit.
pub proof fn lemma_hit_unique(xs: Seq<Intersection>, a: int, b: int)
    requires
        is_hit(xs, a),
        is_hit(xs, b),
    ensures
        a == b,
{
    if a < b {
        assert(xs[a].ahead());
        assert(xs[b].key() < xs[a].key());
        assert(xs[a].key() <= xs[b].key());
    } else if b < a {
        assert(xs[b].ahead());
        assert(xs[a].key() < xs[b].key());
        assert(xs[b].key() <= xs[a].key());
    }
}

/// The index of the hit names the hit.
pub proof fn lemma_hit_at(xs: Seq<Intersection>, k: int)
    requires
        is_hit(xs, k),
    ensures
        spec_hit(xs) == Some(xs[k]),
{
    assert(xs[k].ahead());
    assert(has_hit(xs));
    let c = choose|c: int| is_hit(xs, c);
    lemma_hit_unique(xs, c, k);
}

/// Where nothing lies at or ahead of the origin there is no hit.
pub proof fn lemma_no_hit(xs: Seq<Intersection>)
    requires
        forall|i: int| 0 <= i < xs.len() ==> !(#[trigger] xs[i].ahead()),
    ensures
        spec_hit(xs) is None,
{
}

/// How the parameters of two crossings compare in the total order of
/// ray parameters: `Less` where `a` comes before `b`, `Greater` where it
/// comes after, and `Equal` where neither does.
pub fn nearer(a: &Intersection, b: &Intersection) -> (o: Ordering)
    ensures
        (o matches Ordering::Less) <==> a.key() < b.key(),
        (o matches Ordering::Equal) <==> a.key() == b.key(),
        (o matches Ordering::Greater) <==> a.key() > b.key(),
{
    let left = total_key(a.t);
    let right = total_key(b.t);
    if left < right {
        Ordering::Less
    } else if left == right {
        Ordering::Equal
    } else {
        Ordering::Greater
    }
}

/// Hit selection on a list of crossings.
pub trait IntersectVec {
    /// The visible crossing: the nearest of those at or ahead of the origin.
    fn hit(&self) -> Option<Intersection>;
}

impl IntersectVec for Vec<Intersection> {
    /// Crossings behind the origin (`t < 0`, and those whose parameter is no
    /// number) are passed over. Of the others the one with the least
    /// parameter is returned, the first such in the list where several are
    /// as near; `None` where there are no others.
    fn hit(&self) -> (h: Option<Intersection>)
        ensures
            h == spec_hit(self@),
            h is Some <==> has_hit(self@),
            h matches Some(x) ==> exists|k: int| is_hit(self@, k) && x == self@[k],
    {
        let mut best: Option<usize> = None;
        let mut i: usize = 0;
        while i < self.len()
            invariant
                i <= self.len(),
                best matches Some(b) ==> b < i && is_hit(self@.take(i as int), b as int),
                best is None ==> forall|j: int| 0 <= j < i ==> !(#[trigger] self@[j].ahead()),
            decreases self.len() - i,
        {
            let x = self[i];
            let ghost before = self@.take(i as int);
            let ghost after = self@.take(i + 1);
            assert(forall|j: int| 0 <= j < i ==> before[j] == after[j]);
            assert(after[i as int] == x);
            if at_least_zero(x.t) {
                match best {
                    None => {
                        best = Some(i);
                    },
                    Some(b) => {
                        assert(before[b as int] == after[b as int]);
                        if total_key(x.t) < total_key(self[b].t) {
                            best = Some(i);
                        }
                    },
                }
            } else {
                if let Some(b) = best {
                    assert(before[b as int] == after[b as int]);
                }
            }
            i += 1;
        }
        assert(self@.take(self.len() as int) == self@);
        match best {
            None => {
                proof {
                    lemma_no_hit(self@);
                }
                None
            },
            Some(b) => {
                proof {
                    lemma_hit_at(self@, b as int);
                    assert(self@[b as int].ahead());
                }
                Some(self[b])
            },
        }
    }
}

/// What shading needs to know of a hit.
#[derive(Clone, Copy, Debug)]
pub struct IntersectionComputions {
    /// The shape that was hit.
    pub object: ShapeId,
    /// What the shape is made of.
    pub material: Material,
    /// The ray parameter of the hit.
    pub t: u64,
    /// The point of the hit.
    pub point: Tuple<u64>,
    /// The point of the hit, moved a little along the normal, from which
    /// shadows are looked for.
    pub over_point: Tuple<u64>,
    /// The vector from the hit back to the eye.
    pub eye_vector: Tuple<u64>,
    /// The normal at the hit, on the side of the eye.
    pub normal_vector: Tuple<u64>,
    /// Whether the eye is inside the shape.
    pub inside: bool,
}

/// The point of the ray at parameter `t`.
pub open spec fn position_of<A: Arithmetic<u64>>(arith: &A, ray: Ray, t: u64) -> Tuple<u64> {
    tuple_sum(arith, ray.origin, scaled(arith, ray.direction, t))
}

/// What shading needs to know of a hit on `object` at parameter `t` of
/// `ray`, where `normal` is the normal of the shape at the point of the
/// hit. The eye vector is the direction of the ray reversed. The eye is
/// inside where the normal points away from it; the normal is then
/// reversed, before the point of the hit is moved along it.
pub open spec fn computations<A: Arithmetic<u64>>(
    arith: &A,
    object: ShapeId,
    material: Material,
    t: u64,
    ray: Ray,
    normal: Tuple<u64>,
) -> IntersectionComputions {
    let point = position_of(arith, ray, t);
    let eye_vector = tuple_negative(ray.direction);
    let inside = spec_less_than(dot_product(arith, normal, eye_vector), ZERO);
    let normal_vector = if inside {
        tuple_negative(normal)
    } else {
        normal
    };
    IntersectionComputions {
        object,
        material,
        t,
        point,
        over_point: tuple_sum(arith, point, scaled(arith, normal_vector, EPSILON)),
        eye_vector,
        normal_vector,
        inside,
    }
}

/// Whether `comps` can be what shading needs to know of the crossing `i`
/// of `ray` with `shape`: the normal is that of the shape at the point of
/// the crossing, and the rest follows from it.
pub open spec fn is_prepared<A: Arithmetic<u64>, S: Shape<A>>(
    arith: &A,
    shape: &S,
    i: Intersection,
    ray: Ray,
    comps: IntersectionComputions,
) -> bool {
    exists|point: Tuple<u64>, normal: Tuple<u64>|
        {
            &&& functional(arith) ==> point == position_of(arith, ray, i.t)
            &&& #[trigger] is_normal(arith, shape, point, normal)
            &&& functional(arith) ==> comps == computations(
                arith,
                i.object,
                shape.spec_material(),
                i.t,
                ray,
                normal,
            )
        }
}

impl Intersection {
    /// What shading needs to know of this crossing of `ray` with `shape`.
    /// The transform of the shape has to have an inverse.
    pub fn prepare_computations<A: Arithmetic<u64>, S: Shape<A>>(
        &self,
        ray: Ray,
        shape: &S,
        arith: &A,
    ) -> (comps: IntersectionComputions)
        requires
            usable(arith, shape),
        ensures
            is_prepared(arith, shape, *self, ray, comps),
    {
        let point = ray.position(self.t, arith);
        let normal = normal_at(shape, point, arith);
        let eye_vector = ray.direction.neg();
        let inside = less_than(normal.dot(&eye_vector, arith), ZERO);
        let normal_vector = if inside {
            normal.neg()
        } else {
            normal
        };
        let comps = IntersectionComputions {
            object: self.object,
            material: *shape.material(),
            t: self.t,
            point,
            over_point: point.add(&normal_vector.mul(EPSILON, arith), arith),
            eye_vector,
            normal_vector,
            inside,
        };
        proof {
            assert(is_normal(arith, shape, point, normal));
        }
        comps
    }
}

} // verus!
