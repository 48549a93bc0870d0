//! The scene: its shapes and lights, what a ray meets in it, and what
//! colour it sees.
use crate::colour::{colour_quotient, colour_sum, grey, Colour};
use crate::intersection::{
    has_hit, is_hit, is_prepared, nearer, spec_hit, Intersection, IntersectVec,
    IntersectionComputions,
};
use crate::lights::{Light, PointLight};
use crate::materials::lit_colour;
use crate::math::arithmetic::{counted, functional, Arithmetic};
use crate::math::float::ZERO;
use crate::math::order::{less_than, spec_less_than};
use crate::math::tuple::{magnitude_of, normalized, tuple_difference, Tuple};
use crate::ray::Ray;
use crate::materials::Material;
use crate::math::float::ONE;
use crate::math::matrix::Matrix;
use crate::shape::sphere::Sphere;
use crate::math::matrix::algebra::invertible;
use crate::shape::{intersect, is_crossed, usable, SceneError, Shape, ShapeBase, ShapeId};
use vstd::prelude::*;

verus! {

/// Whether the crossings come nearest first.
pub open spec fn sorted_by_t(xs: Seq<Intersection>) -> bool {
    forall|i: int, j: int| 0 <= i < j < xs.len() ==> xs[i].key() <= xs[j].key()
}

/// The crossings of `xs` whose parameter has the given place in the order,
/// in the order in which `xs` holds them.
pub open spec fn at_key(xs: Seq<Intersection>, key: int) -> Seq<Intersection> {
    xs.filter(|x: Intersection| x.key() == key)
}

/// Whether `out` is `xs` sorted nearest first with no two crossings of equal
/// parameter changing places. There is one such arrangement of `xs`.
pub open spec fn is_stable_sort_of(out: Seq<Intersection>, xs: Seq<Intersection>) -> bool {
    &&& sorted_by_t(out)
    &&& out.len() == xs.len()
    &&& out.to_multiset() == xs.to_multiset()
    &&& forall|key: int| #[trigger] at_key(out, key) == at_key(xs, key)
}

/// What the shapes of a scene answered, laid end to end in the order of the
/// shapes. A shape that answered `None` adds nothing.
pub open spec fn flatten(found: Seq<Option<Vec<Intersection>>>) -> Seq<Intersection>
    decreases found.len(),
{
    if found.len() == 0 {
        Seq::empty()
    } else {
        flatten(found.drop_last()) + match found.last() {
            Some(xs) => xs@,
            None => Seq::empty(),
        }
    }
}

/// Whether a point is in shadow, given everything the ray from the point
/// towards the light crosses and the distance from the point to the light:
/// there is a hit, and it is nearer than the light.
pub open spec fn spec_shadowed(xs: Seq<Intersection>, distance: u64) -> bool {
    match spec_hit(xs) {
        Some(h) => spec_less_than(h.t, distance),
        None => false,
    }
}

/// The first crossing of `xs` with the given place in the order, where
/// there is one: it is also the first of `at_key(xs, key)`.
proof fn lemma_first_at_key(xs: Seq<Intersection>, key: int) -> (i: int)
    requires
        at_key(xs, key).len() > 0,
    ensures
        0 <= i < xs.len(),
        xs[i].key() == key,
        forall|j: int| 0 <= j < i ==> (#[trigger] xs[j]).key() != key,
        at_key(xs, key)[0] == xs[i],
    decreases xs.len(),
{
    let pred = |x: Intersection| x.key() == key;
    reveal(Seq::filter);
    assert(xs.len() > 0);
    let rest = xs.drop_last();
    if rest.filter(pred).len() > 0 {
        let i = lemma_first_at_key(rest, key);
        assert(xs[i] == rest[i]);
        assert forall|j: int| 0 <= j < i implies (#[trigger] xs[j]).key() != key by {
            assert(xs[j] == rest[j]);
        }
        i
    } else {
        assert forall|j: int| 0 <= j < xs.len() - 1 implies (#[trigger] xs[j]).key() != key by {
            if xs[j].key() == key {
                assert(rest[j] == xs[j]);
                rest.lemma_filter_contains(pred, j);
            }
        }
        xs.len() - 1
    }
}

/// Among crossings of which one lies at or ahead of the origin, one is the
/// hit.
pub proof fn lemma_hit_exists(xs: Seq<Intersection>) -> (k: int)
    requires
        has_hit(xs),
    ensures
        is_hit(xs, k),
    decreases xs.len(),
{
    let last = xs.len() - 1;
    let rest = xs.drop_last();
    if has_hit(rest) {
        let k = lemma_hit_exists(rest);
        assert(rest[k] == xs[k]);
        if xs[last].ahead() && xs[last].key() < xs[k].key() {
            assert forall|j: int| 0 <= j < xs.len() && #[trigger] xs[j].ahead() implies xs[last].key()
                <= xs[j].key() by {
                if j < last {
                    assert(rest[j] == xs[j]);
                }
            }
            assert forall|j: int| 0 <= j < last && #[trigger] xs[j].ahead() implies xs[last].key()
                < xs[j].key() by {
                assert(rest[j] == xs[j]);
            }
            last
        } else {
            assert forall|j: int| 0 <= j < xs.len() && #[trigger] xs[j].ahead() implies xs[k].key()
                <= xs[j].key() by {
                if j < last {
                    assert(rest[j] == xs[j]);
                }
            }
            assert forall|j: int| 0 <= j < k && #[trigger] xs[j].ahead() implies xs[k].key()
                < xs[j].key() by {
                assert(rest[j] == xs[j]);
            }
            k
        }
    } else {
        let i = choose|i: int| 0 <= i < xs.len() && #[trigger] xs[i].ahead();
        if i < last {
            assert(rest[i] == xs[i]);
            assert(rest[i].ahead());
        }
        assert forall|j: int| 0 <= j < last implies !(#[trigger] xs[j].ahead()) by {
            if xs[j].ahead() {
                assert(rest[j] == xs[j]);
                assert(rest[j].ahead());
            }
        }
        last
    }
}

/// Sorting does not change the hit: in a scene's crossings, nearest first,
/// the hit is the one that hit selection finds among the answers of the
/// shapes as they came.
pub proof fn lemma_sort_keeps_hit(out: Seq<Intersection>, xs: Seq<Intersection>)
    requires
        is_stable_sort_of(out, xs),
    ensures
        spec_hit(out) == spec_hit(xs),
{
    broadcast use vstd::seq_lib::to_multiset_contains;

    assert forall|o: Intersection| out.contains(o) <==> xs.contains(o) by {
        assert(out.to_multiset().count(o) == xs.to_multiset().count(o));
    }
    if has_hit(xs) {
        let k = lemma_hit_exists(xs);
        let h = xs[k];
        let key = h.key();
        let pred = |x: Intersection| x.key() == key;
        xs.lemma_filter_contains(pred, k);
        assert(at_key(xs, key).len() > 0);
        assert(at_key(out, key) == at_key(xs, key));
        let first = lemma_first_at_key(xs, key);
        if first < k {
            crate::math::order::lemma_total_key_injective(xs[first].t, h.t);
            assert(xs[first].ahead());
        } else if k < first {
            assert(xs[k].key() != key);
        }
        let at = lemma_first_at_key(out, key);
        assert(out[at] == h);
        assert forall|j: int| 0 <= j < out.len() && #[trigger] out[j].ahead() implies out[at].key()
            <= out[j].key() by {
            assert(out.contains(out[j]));
            let i = choose|i: int| 0 <= i < xs.len() && xs[i] == out[j];
            assert(xs[i].ahead());
        }
        assert forall|j: int| 0 <= j < at && #[trigger] out[j].ahead() implies out[at].key()
            < out[j].key() by {
            assert(out[j].key() != key);
        }
        crate::intersection::lemma_hit_at(out, at);
        crate::intersection::lemma_hit_at(xs, k);
    } else {
        assert forall|j: int| 0 <= j < out.len() implies !(#[trigger] out[j].ahead()) by {
            assert(out.contains(out[j]));
            let i = choose|i: int| 0 <= i < xs.len() && xs[i] == out[j];
            if out[j].ahead() {
                assert(xs[i].ahead());
            }
        }
        crate::intersection::lemma_no_hit(out);
    }
}

/// There is one way to sort crossings nearest first without two of equal
/// parameter changing places.
pub proof fn lemma_stable_sort_unique(
    a: Seq<Intersection>,
    b: Seq<Intersection>,
    xs: Seq<Intersection>,
)
    requires
        is_stable_sort_of(a, xs),
        is_stable_sort_of(b, xs),
    ensures
        a == b,
{
    assert forall|key: int| #[trigger] at_key(a, key) == at_key(b, key) by {
        assert(at_key(a, key) == at_key(xs, key));
        assert(at_key(b, key) == at_key(xs, key));
    }
    lemma_same_runs(a, b);
}

/// Two lists of crossings, both nearest first and as long as one another,
/// that hold the same crossings at every place in the order, in the same
/// order, are one list.
proof fn lemma_same_runs(a: Seq<Intersection>, b: Seq<Intersection>)
    requires
        sorted_by_t(a),
        sorted_by_t(b),
        a.len() == b.len(),
        forall|key: int| #[trigger] at_key(a, key) == at_key(b, key),
    ensures
        a == b,
    decreases a.len(),
{
    if a.len() == 0 {
        assert(a =~= b);
    } else {
        reveal(Seq::filter);
        let n = a.len() - 1;
        let ka = a[n].key();
        let kb = b[n].key();
        let pa = |x: Intersection| x.key() == ka;
        let pb = |x: Intersection| x.key() == kb;
        if ka != kb {
            // The greater of the two keys is met in one list and so in the other,
            // where nothing is as great.
            if ka > kb {
                a.lemma_filter_contains(pa, n);
                assert(at_key(b, ka) == at_key(a, ka));
                b.lemma_filter_contains_rev(pa, a[n]);
                let i = choose|i: int| 0 <= i < b.len() && b[i] == a[n];
                assert(b[i].key() <= b[n].key());
            } else {
                b.lemma_filter_contains(pb, n);
                assert(at_key(a, kb) == at_key(b, kb));
                a.lemma_filter_contains_rev(pb, b[n]);
                let i = choose|i: int| 0 <= i < a.len() && a[i] == b[n];
                assert(a[i].key() <= a[n].key());
            }
        }
        assert(at_key(a, ka) == at_key(b, ka));
        assert(at_key(a, ka).last() == a[n]);
        assert(at_key(b, ka).last() == b[n]);
        let ra = a.drop_last();
        let rb = b.drop_last();
        assert forall|key: int| #[trigger] at_key(ra, key) == at_key(rb, key) by {
            assert(at_key(a, key) == at_key(b, key));
            if key == ka {
                assert(at_key(ra, key) =~= at_key(a, key).drop_last());
                assert(at_key(rb, key) =~= at_key(b, key).drop_last());
            }
        }
        assert(sorted_by_t(ra)) by {
            assert forall|i: int, j: int| 0 <= i < j < ra.len() implies ra[i].key()
                <= ra[j].key() by {
                assert(ra[i] == a[i] && ra[j] == a[j]);
            }
        }
        assert(sorted_by_t(rb)) by {
            assert forall|i: int, j: int| 0 <= i < j < rb.len() implies rb[i].key()
                <= rb[j].key() by {
                assert(rb[i] == b[i] && rb[j] == b[j]);
            }
        }
        lemma_same_runs(ra, rb);
        assert(a =~= ra.push(a[n]));
        assert(b =~= rb.push(b[n]));
    }
}

/// Sorts the crossings in place with `sort_by` of the standard library,
/// which is handed [`nearer`] to compare two crossings. It is documented to
/// put a list into ascending order by what the comparison says, and to be
/// stable: items that compare as equal keep the order in which they came.
/// The contract claims that of the crossings, ordered by the place of
/// their parameters in the total order.
#[verifier::external_body]
fn sort_nearest_first(xs: &mut Vec<Intersection>)
    ensures
        is_stable_sort_of(final(xs)@, old(xs)@),
{
    xs.sort_by(|a, b| nearer(a, b));
}

/// The crossings sorted nearest first. Crossings of equal parameter keep the
/// order in which they came.
pub fn sort_by_t(xs: Vec<Intersection>) -> (out: Vec<Intersection>)
    ensures
        is_stable_sort_of(out@, xs@),
{
    let mut out = xs;
    sort_nearest_first(&mut out);
    out
}

/// Everything the shapes answered, in the order of the shapes.
pub fn gather(found: &Vec<Option<Vec<Intersection>>>) -> (xs: Vec<Intersection>)
    ensures
        xs@ == flatten(found@),
{
    let mut xs: Vec<Intersection> = Vec::new();
    let mut i: usize = 0;
    proof {
        assert(found@.take(0) =~= Seq::<Option<Vec<Intersection>>>::empty());
    }
    while i < found.len()
        invariant
            i <= found.len(),
            xs@ == flatten(found@.take(i as int)),
        decreases found.len() - i,
    {
        proof {
            let next = found@.take(i + 1);
            assert(next.drop_last() =~= found@.take(i as int));
            assert(next.last() == found@[i as int]);
        }
        match &found[i] {
            Some(part) => {
                let ghost start = xs@;
                let mut j: usize = 0;
                while j < part.len()
                    invariant
                        j <= part.len(),
                        xs@ == start + part@.take(j as int),
                    decreases part.len() - j,
                {
                    xs.push(part[j]);
                    proof {
                        assert(part@.take(j + 1) =~= part@.take(j as int).push(part@[j as int]));
                        assert(xs@ =~= start + part@.take(j + 1));
                    }
                    j += 1;
                }
                proof {
                    assert(part@.take(part.len() as int) =~= part@);
                }
            },
            None => {
                proof {
                    assert(xs@ + Seq::<Intersection>::empty() =~= xs@);
                }
            },
        }
        i += 1;
    }
    proof {
        assert(found@.take(found.len() as int) =~= found@);
    }
    xs
}

/// What a ray meets in a scene whose shapes answered `found`: every
/// crossing of every shape, nearest first. Nothing is dropped, and crossings
/// of equal parameter stay in the order of the shapes.
pub fn intersect_all(found: &Vec<Option<Vec<Intersection>>>) -> (xs: Vec<Intersection>)
    ensures
        is_stable_sort_of(xs@, flatten(found@)),
{
    sort_by_t(gather(found))
}

/// Whether a point is in shadow, given what the ray from the point towards
/// the light meets and how far the light is.
pub fn shadowed(xs: &Vec<Intersection>, distance: u64) -> (r: bool)
    ensures
        r == spec_shadowed(xs@, distance),
{
    match xs.hit() {
        Some(h) => less_than(h.t, distance),
        None => false,
    }
}

/// A scene: shapes and lights, each in the order in which they were added.
/// The scene is built once and only read while a frame is rendered.
pub struct World<S, L> {
    /// The shapes.
    pub objects: Vec<S>,
    /// The lights.
    pub light: Vec<L>,
}

impl<S, L> World<S, L> {
    /// A scene of the given shapes and lights.
    pub fn new(objects: Vec<S>, light: Vec<L>) -> (world: Self)
        ensures
            world.objects == objects,
            world.light == light,
    {
        World { objects, light }
    }
}

/// The ray from a point towards a light.
pub open spec fn shadow_ray<A: Arithmetic<u64>>(
    arith: &A,
    position: Tuple<u64>,
    point: Tuple<u64>,
) -> Ray {
    Ray { origin: point, direction: normalized(arith, tuple_difference(arith, position, point)) }
}

/// The distance from a point to a light.
pub open spec fn light_distance<A: Arithmetic<u64>>(
    arith: &A,
    position: Tuple<u64>,
    point: Tuple<u64>,
) -> u64 {
    magnitude_of(arith, tuple_difference(arith, position, point))
}

/// The colours added up from the left, from the first on.
pub open spec fn total<A: Arithmetic<u64>>(arith: &A, colours: Seq<Colour>) -> Colour
    decreases colours.len(),
{
    if colours.len() == 0 {
        grey(ZERO)
    } else if colours.len() == 1 {
        colours[0]
    } else {
        colour_sum(arith, total(arith, colours.drop_last()), colours.last())
    }
}

impl<S: ShapeBase, L: Light> World<S, L> {
    /// Whether no two shapes of the scene share an identity.
    pub open spec fn distinct(&self) -> bool {
        forall|i: int, j: int|
            0 <= i < j < self.objects.len() ==> (#[trigger] self.objects[i]).spec_id()
                != (#[trigger] self.objects[j]).spec_id()
    }

    /// Whether the scene can be rendered: every shape has a transform of
    /// four rows and columns that has an inverse, and no two shapes share
    /// an identity.
    pub open spec fn ready<A: Arithmetic<u64>>(&self, arith: &A) -> bool {
        &&& forall|i: int| 0 <= i < self.objects.len() ==> usable(arith, &#[trigger] self.objects[i])
        &&& self.distinct()
    }

    /// Whether the ray hits nothing in the scene, whatever it meets.
    pub open spec fn sees_nothing<A: Arithmetic<u64>>(&self, arith: &A, ray: Ray) -> bool where
        S: Shape<A>,
     {
        forall|xs: Vec<Intersection>| #[trigger]
            self.is_met(arith, ray, Ok::<Vec<Intersection>, SceneError>(xs)) ==> spec_hit(xs@) is None
    }

    /// Whether `found` can be what the shapes of the scene answer to the
    /// ray, shape by shape.
    pub open spec fn crossed_by<A: Arithmetic<u64>>(
        &self,
        arith: &A,
        ray: Ray,
        found: Seq<Option<Vec<Intersection>>>,
    ) -> bool where S: Shape<A> {
        &&& found.len() == self.objects.len()
        &&& forall|i: int|
            0 <= i < found.len() ==> is_crossed(
                arith,
                &self.objects[i],
                ray,
                Ok::<Option<Vec<Intersection>>, SceneError>(#[trigger] found[i]),
            )
    }

    /// Whether `xs` can be what the ray meets in the scene: the crossings
    /// of all shapes, nearest first, or the error of a shape for which the
    /// ray is no ray.
    pub open spec fn is_met<A: Arithmetic<u64>>(
        &self,
        arith: &A,
        ray: Ray,
        xs: Result<Vec<Intersection>, SceneError>,
    ) -> bool where S: Shape<A> {
        match xs {
            Ok(v) => exists|found: Seq<Option<Vec<Intersection>>>| #[trigger]
                self.crossed_by(arith, ray, found) && is_stable_sort_of(v@, flatten(found)),
            Err(e) => exists|i: int|
                0 <= i < self.objects.len() && #[trigger] is_crossed(
                    arith,
                    &self.objects[i],
                    ray,
                    Err::<Option<Vec<Intersection>>, SceneError>(e),
                ),
        }
    }

    /// Whether `hidden` can be the answer to whether `light` is hidden from
    /// `point`: something that the ray from the point towards the light
    /// meets is hit nearer than the light.
    pub open spec fn is_hidden<A: Arithmetic<u64>>(
        &self,
        arith: &A,
        light: &L,
        point: Tuple<u64>,
        hidden: Result<bool, SceneError>,
    ) -> bool where S: Shape<A> {
        functional(arith) ==> {
            let ray = shadow_ray(arith, light.spec_position(), point);
            if !ray.wf() {
                hidden == Err::<bool, SceneError>(SceneError::NotARay)
            } else {
                exists|xs: Result<Vec<Intersection>, SceneError>| #[trigger]
                    self.is_met(arith, ray, xs) && match xs {
                        Ok(v) => hidden == Ok::<bool, SceneError>(
                            spec_shadowed(v@, light_distance(arith, light.spec_position(), point)),
                        ),
                        Err(e) => hidden == Err::<bool, SceneError>(e),
                    }
            }
        }
    }

    /// Whether `colour` can be what light `i` gives the hit.
    pub open spec fn is_lit_by<A: Arithmetic<u64>>(
        &self,
        arith: &A,
        comps: IntersectionComputions,
        i: int,
        colour: Colour,
    ) -> bool where S: Shape<A> {
        exists|hidden: bool| #[trigger]
            self.is_hidden(arith, &self.light[i], comps.over_point, Ok::<bool, SceneError>(hidden))
                && (functional(arith) ==> colour == lit_colour(
                arith,
                comps.material,
                self.light[i].spec_intensity(),
                self.light[i].spec_position(),
                comps.over_point,
                comps.eye_vector,
                comps.normal_vector,
                hidden,
            ))
    }

    /// Whether `colour` can be the colour of the hit: the mean of what the
    /// lights give it, or the error of a shadow that cannot be looked for.
    pub open spec fn is_shaded<A: Arithmetic<u64>>(
        &self,
        arith: &A,
        comps: IntersectionComputions,
        colour: Result<Colour, SceneError>,
    ) -> bool where S: Shape<A> {
        match colour {
            Err(e) => exists|i: int|
                0 <= i < self.light.len() && #[trigger] self.is_hidden(
                    arith,
                    &self.light[i],
                    comps.over_point,
                    Err::<bool, SceneError>(e),
                ),
            Ok(c) => exists|each: Seq<Colour>|
                {
                    &&& each.len() == self.light.len()
                    &&& forall|i: int|
                        0 <= i < each.len() ==> self.is_lit_by(arith, comps, i, #[trigger] each[i])
                    &&& functional(arith) ==> c == colour_quotient(
                        arith,
                        total(arith, each),
                        grey(counted(arith, self.light.len() as usize)),
                    )
                },
        }
    }

    /// The first shape of the scene with the given identity.
    pub open spec fn spec_shape_of(&self, id: ShapeId) -> Option<int> {
        if exists|k: int| 0 <= k < self.objects.len() && (#[trigger] self.objects[k]).spec_id() == id {
            Some(
                choose|k: int|
                    0 <= k < self.objects.len() && (#[trigger] self.objects[k]).spec_id() == id
                        && forall|j: int| 0 <= j < k ==> (#[trigger] self.objects[j]).spec_id() != id,
            )
        } else {
            None
        }
    }

    /// Whether `colour` can be what the ray sees: black where it hits
    /// nothing, else the colour of the hit.
    pub open spec fn is_seen<A: Arithmetic<u64>>(
        &self,
        arith: &A,
        ray: Ray,
        colour: Result<Colour, SceneError>,
    ) -> bool where S: Shape<A> {
        exists|xs: Result<Vec<Intersection>, SceneError>| #[trigger]
            self.is_met(arith, ray, xs) && match xs {
                Err(e) => colour == Err::<Colour, SceneError>(e),
                Ok(v) => match spec_hit(v@) {
                    None => colour == Ok::<Colour, SceneError>(grey(ZERO)),
                    Some(hit) => self.is_hit_seen(arith, ray, hit, colour),
                },
            }
    }

    /// Whether `colour` can be the colour of the hit `hit` of the ray: what
    /// shading needs is worked out of the shape that was hit, and the hit
    /// is shaded.
    pub open spec fn is_hit_seen<A: Arithmetic<u64>>(
        &self,
        arith: &A,
        ray: Ray,
        hit: Intersection,
        colour: Result<Colour, SceneError>,
    ) -> bool where S: Shape<A> {
        match self.spec_shape_of(hit.object) {
            None => colour == Err::<Colour, SceneError>(SceneError::UnknownShape),
            Some(k) => exists|comps: IntersectionComputions| #[trigger]
                is_prepared(arith, &self.objects[k], hit, ray, comps) && self.is_shaded(
                    arith,
                    comps,
                    colour,
                ),
        }
    }

    /// The place in the scene of the first shape with the given identity.
    pub fn shape_of(&self, id: ShapeId) -> (k: Option<usize>)
        ensures
            match k {
                Some(k) => self.spec_shape_of(id) == Some(k as int) && k < self.objects.len(),
                None => self.spec_shape_of(id) is None,
            },
    {
        let mut k: usize = 0;
        while k < self.objects.len()
            invariant
                k <= self.objects.len(),
                forall|j: int| 0 <= j < k ==> (#[trigger] self.objects[j]).spec_id() != id,
            decreases self.objects.len() - k,
        {
            if self.objects[k].id() == id {
                proof {
                    let c = choose|c: int|
                        0 <= c < self.objects.len() && (#[trigger] self.objects[c]).spec_id() == id
                            && forall|j: int|
                            0 <= j < c ==> (#[trigger] self.objects[j]).spec_id() != id;
                    assert(self.objects[k as int].spec_id() == id);
                    assert(c == k);
                }
                return Some(k);
            }
            k += 1;
        }
        None
    }

    /// Whether the scene can be rendered, as far as a test can tell: every
    /// transform has four rows and columns and is found to have a
    /// determinant other than zero, and no two shapes share an identity.
    pub fn is_ready<A: Arithmetic<u64>>(&self, arith: &A) -> (ready: bool) where S: Shape<A>
        ensures
            ready ==> self.distinct(),
            ready ==> forall|i: int|
                0 <= i < self.objects.len() ==> (#[trigger] self.objects[i]).spec_transform().spec_width()
                    == 4 && self.objects[i].spec_transform().spec_height() == 4,
            functional(arith) ==> (ready <==> self.ready(arith)),
    {
        let mut i: usize = 0;
        while i < self.objects.len()
            invariant
                i <= self.objects.len(),
                forall|k: int|
                    0 <= k < i ==> (#[trigger] self.objects[k]).spec_transform().spec_width() == 4
                        && self.objects[k].spec_transform().spec_height() == 4,
                functional(arith) ==> forall|k: int|
                    0 <= k < i ==> usable(arith, &#[trigger] self.objects[k]),
                forall|a: int, b: int|
                    0 <= a < b < i ==> (#[trigger] self.objects[a]).spec_id()
                        != (#[trigger] self.objects[b]).spec_id(),
            decreases self.objects.len() - i,
        {
            let transform = self.objects[i].transform();
            if transform.width() != 4 || transform.height() != 4 {
                proof {
                    assert(!usable(arith, &self.objects[i as int]));
                }
                return false;
            }
            if !transform.can_invert(arith) {
                proof {
                    if functional(arith) {
                        assert(!usable(arith, &self.objects[i as int]));
                    }
                }
                return false;
            }
            let id = self.objects[i].id();
            let mut j: usize = 0;
            while j < i
                invariant
                    j <= i,
                    i < self.objects.len(),
                    id == self.objects[i as int].spec_id(),
                    forall|a: int| 0 <= a < j ==> (#[trigger] self.objects[a]).spec_id() != id,
                decreases i - j,
            {
                if self.objects[j].id() == id {
                    proof {
                        assert(self.objects[j as int].spec_id() == self.objects[i as int].spec_id());
                    }
                    return false;
                }
                j += 1;
            }
            i += 1;
        }
        true
    }

    /// Everything the ray meets in the scene, nearest first. Every shape is
    /// asked, in their order; a shape that is not crossed adds nothing,
    /// nothing is dropped, and crossings of equal parameter stay in the
    /// order of the shapes.
    pub fn intersect_world<A: Arithmetic<u64>>(&self, ray: Ray, arith: &A) -> (xs: Result<
        Vec<Intersection>,
        SceneError,
    >) where S: Shape<A>
        requires
            self.ready(arith),
        ensures
            self.is_met(arith, ray, xs),
            xs matches Ok(v) ==> sorted_by_t(v@),
    {
        let mut found: Vec<Option<Vec<Intersection>>> = Vec::new();
        let mut i: usize = 0;
        while i < self.objects.len()
            invariant
                i <= self.objects.len(),
                self.ready(arith),
                found.len() == i,
                forall|j: int|
                    0 <= j < i ==> is_crossed(
                        arith,
                        &self.objects[j],
                        ray,
                        Ok::<Option<Vec<Intersection>>, SceneError>(#[trigger] found@[j]),
                    ),
            decreases self.objects.len() - i,
        {
            assert(usable(arith, &self.objects[i as int]));
            match intersect(&self.objects[i], ray, arith) {
                Err(e) => {
                    proof {
                        assert(is_crossed(
                            arith,
                            &self.objects[i as int],
                            ray,
                            Err::<Option<Vec<Intersection>>, SceneError>(e),
                        ));
                    }
                    return Err(e);
                },
                Ok(answer) => {
                    found.push(answer);
                },
            }
            i += 1;
        }
        let xs = intersect_all(&found);
        proof {
            assert(self.crossed_by(arith, ray, found@) && is_stable_sort_of(xs@, flatten(found@)));
        }
        Ok(xs)
    }

    /// Whether the light is hidden from the point: the ray from the point
    /// towards the light hits something nearer than the light.
    pub fn is_shadowed_by<A: Arithmetic<u64>>(&self, light: &L, point: Tuple<u64>, arith: &A) -> (hidden:
        Result<bool, SceneError>) where S: Shape<A>
        requires
            self.ready(arith),
        ensures
            self.is_hidden(arith, light, point, hidden),
    {
        let v = light.position().sub(&point, arith);
        let distance = v.magnitude(arith);
        let direction = v.normalize(arith);
        if !(point.is_point() && direction.is_vector()) {
            return Err(SceneError::NotARay);
        }
        let ray = Ray::new(point, direction);
        let xs = self.intersect_world(ray, arith);
        let hidden = match &xs {
            Ok(v) => Ok(shadowed(v, distance)),
            Err(e) => Err(*e),
        };
        proof {
            if functional(arith) {
                assert(ray == shadow_ray(arith, light.spec_position(), point));
                assert(self.is_met(arith, ray, xs));
            }
        }
        hidden
    }

    /// Whether the point is in the shadow of any light. The lights are
    /// asked in their order, up to the first that is hidden.
    pub fn is_shadowed<A: Arithmetic<u64>>(&self, point: Tuple<u64>, arith: &A) -> (shadowed: Result<
        bool,
        SceneError,
    >) where S: Shape<A>
        requires
            self.ready(arith),
        ensures
            match shadowed {
                Ok(true) => exists|i: int|
                    0 <= i < self.light.len() && #[trigger] self.is_hidden(
                        arith,
                        &self.light[i],
                        point,
                        Ok::<bool, SceneError>(true),
                    ),
                Ok(false) => forall|i: int|
                    0 <= i < self.light.len() ==> #[trigger] self.is_hidden(
                        arith,
                        &self.light[i],
                        point,
                        Ok::<bool, SceneError>(false),
                    ),
                Err(e) => exists|i: int|
                    0 <= i < self.light.len() && #[trigger] self.is_hidden(
                        arith,
                        &self.light[i],
                        point,
                        Err::<bool, SceneError>(e),
                    ),
            },
    {
        let mut i: usize = 0;
        while i < self.light.len()
            invariant
                i <= self.light.len(),
                self.ready(arith),
                forall|j: int|
                    0 <= j < i ==> #[trigger] self.is_hidden(
                        arith,
                        &self.light[j],
                        point,
                        Ok::<bool, SceneError>(false),
                    ),
            decreases self.light.len() - i,
        {
            match self.is_shadowed_by(&self.light[i], point, arith) {
                Err(e) => {
                    return Err(e);
                },
                Ok(hidden) => {
                    if hidden {
                        return Ok(true);
                    }
                },
            }
            i += 1;
        }
        Ok(false)
    }

    /// The colour of a hit: the mean of what the lights give it, each
    /// light with the shadow that falls on the hit from it. The scene has
    /// to hold a light.
    pub fn shade_hit<A: Arithmetic<u64>>(&self, comps: IntersectionComputions, arith: &A) -> (colour:
        Result<Colour, SceneError>) where S: Shape<A>
        requires
            self.ready(arith),
            self.light.len() > 0,
        ensures
            self.is_shaded(arith, comps, colour),
    {
        let mut sum = Colour::black();
        let ghost mut each: Seq<Colour> = Seq::empty();
        let mut i: usize = 0;
        while i < self.light.len()
            invariant
                i <= self.light.len(),
                self.ready(arith),
                each.len() == i,
                forall|j: int| 0 <= j < i ==> self.is_lit_by(arith, comps, j, #[trigger] each[j]),
                functional(arith) ==> sum == total(arith, each),
            decreases self.light.len() - i,
        {
            let hidden = match self.is_shadowed_by(&self.light[i], comps.over_point, arith) {
                Err(e) => {
                    return Err(e);
                },
                Ok(hidden) => hidden,
            };
            let lit = comps.material.lighting(
                &self.light[i],
                comps.over_point,
                comps.eye_vector,
                comps.normal_vector,
                hidden,
                arith,
            );
            proof {
                assert(self.is_hidden(
                    arith,
                    &self.light[i as int],
                    comps.over_point,
                    Ok::<bool, SceneError>(hidden),
                ));
                assert(self.is_lit_by(arith, comps, i as int, lit));
                let before = each;
                each = each.push(lit);
                assert(each.drop_last() =~= before);
            }
            sum = if i == 0 {
                lit
            } else {
                sum.add(&lit, arith)
            };
            i += 1;
        }
        let count = arith.count(self.light.len());
        let colour = sum.div_scalar(count, arith);
        proof {
            assert(each.len() == self.light.len() && (forall|i: int|
                0 <= i < each.len() ==> self.is_lit_by(arith, comps, i, #[trigger] each[i])) && (
            functional(arith) ==> colour == colour_quotient(
                arith,
                total(arith, each),
                grey(counted(arith, self.light.len() as usize)),
            )));
        }
        Ok(colour)
    }

    /// The colour that the ray sees: black where it hits nothing, else the
    /// colour of the hit. A scene in which the ray hits something has to
    /// hold a light.
    pub fn colour_at<A: Arithmetic<u64>>(&self, ray: Ray, arith: &A) -> (colour: Result<
        Colour,
        SceneError,
    >) where S: Shape<A>
        requires
            self.ready(arith),
            self.light.len() > 0 || self.sees_nothing(arith, ray),
        ensures
            self.is_seen(arith, ray, colour),
    {
        let xs = self.intersect_world(ray, arith);
        let colour = match &xs {
            Err(e) => Err(*e),
            Ok(v) => match v.hit() {
                None => Ok(Colour::black()),
                Some(hit) => {
                    let found = self.shape_of(hit.object);
                    let shaded = match found {
                        None => {
                            let unknown = Err(SceneError::UnknownShape);
                            proof {
                                assert(self.is_hit_seen(arith, ray, hit, unknown));
                            }
                            unknown
                        },
                        Some(k) => {
                            assert(usable(arith, &self.objects[k as int]));
                            proof {
                                assert(self.is_met(
                                    arith,
                                    ray,
                                    Ok::<Vec<Intersection>, SceneError>(*v),
                                ));
                                assert(spec_hit(v@) is Some);
                            }
                            let comps = hit.prepare_computations(ray, &self.objects[k], arith);
                            let shaded = self.shade_hit(comps, arith);
                            proof {
                                assert(self.spec_shape_of(hit.object) == Some(k as int));
                                let at = self.spec_shape_of(hit.object)->0;
                                assert(at == k);
                                assert(is_prepared(arith, &self.objects[at], hit, ray, comps));
                                assert(self.is_hit_seen(arith, ray, hit, shaded));
                            }
                            shaded
                        },
                    };
                    shaded
                },
            },
        };
        proof {
            assert(self.is_met(arith, ray, xs));
        }
        colour
    }
}

/// Four fifths.
pub const FOUR_FIFTHS: u64 = 0x3fe9_9999_9999_999a;

/// Three fifths.
pub const THREE_FIFTHS: u64 = 0x3fe3_3333_3333_3333;

/// Seven tenths.
pub const SEVEN_TENTHS: u64 = 0x3fe6_6666_6666_6666;

/// One fifth.
pub const ONE_FIFTH: u64 = 0x3fc9_9999_9999_999a;

/// Ten.
pub const TEN: u64 = 0x4024_0000_0000_0000;

/// Minus ten.
pub const MINUS_TEN: u64 = 0xc024_0000_0000_0000;

/// The material of the outer sphere of the usual scene.
pub open spec fn outer_material() -> Material {
    Material {
        colour: Colour { red: FOUR_FIFTHS, green: ONE, blue: THREE_FIFTHS },
        ambient: crate::materials::PLAIN_AMBIENT,
        diffuse: SEVEN_TENTHS,
        specular: ONE_FIFTH,
        shininess: crate::materials::PLAIN_SHININESS,
    }
}

impl Default for World<Sphere, PointLight> {
    /// The usual scene: two spheres about the origin, the inner half the
    /// size of the outer, and one white light up, to the left and behind
    /// the eye.
    fn default() -> (world: Self)
        ensures
            world.objects.len() == 2,
            world.objects[0].spec_transform().spec_width() == 4,
            world.objects[0].spec_transform().spec_height() == 4,
            world.objects[1].spec_transform().spec_width() == 4,
            world.objects[1].spec_transform().spec_height() == 4,
            world.objects[0].spec_id().is_random(),
            world.objects[1].spec_id().is_random(),
            world.light.len() == 1,
            world.objects[0].spec_material() == outer_material(),
            world.objects[0].spec_transform()@ == crate::math::matrix::transform::spec_identity(
                ZERO,
                ONE,
            ),
            world.objects[1].spec_material() == crate::materials::plain(),
            world.objects[1].spec_transform()@ == crate::math::matrix::transform::spec_scaling(
                crate::math::float::HALF,
                crate::math::float::HALF,
                crate::math::float::HALF,
            ),
            world.light[0] == (PointLight {
                intensity: grey(ONE),
                position: Tuple { x: MINUS_TEN, y: TEN, z: MINUS_TEN, w: ONE },
            }),
    {
        let s1_mat = Material {
            colour: Colour::new(FOUR_FIFTHS, ONE, THREE_FIFTHS),
            ambient: crate::materials::PLAIN_AMBIENT,
            diffuse: SEVEN_TENTHS,
            specular: ONE_FIFTH,
            shininess: crate::materials::PLAIN_SHININESS,
        };
        let mut objects: Vec<Sphere> = Vec::new();
        objects.push(Sphere::new_with_material(s1_mat));
        objects.push(
            Sphere::new_with_transform(
                Matrix::scaling(
                    crate::math::float::HALF,
                    crate::math::float::HALF,
                    crate::math::float::HALF,
                ),
            ),
        );
        let mut light: Vec<PointLight> = Vec::new();
        light.push(PointLight::new(Colour::white(), Tuple::point(MINUS_TEN, TEN, MINUS_TEN)));
        World { objects, light }
    }
}

} // verus!
