use raytracer::intersection::{nearer, IntersectVec, Intersection};
use raytracer::shape::ShapeId;
use std::cmp::Ordering;

fn at(t: f64, object: ShapeId) -> Intersection {
    Intersection::new(t.to_bits(), object)
}

#[test]
fn intersection_hit() {
    let s = ShapeId::generate();
    let i1 = at(1.0, s);
    let i2 = at(2.0, s);

    let xs = vec![i2, i1];

    assert_eq!(xs.hit().expect("should exist"), i1);
}

#[test]
fn hit_between() {
    let s = ShapeId::generate();
    let i1 = at(-1.0, s);
    let i2 = at(1.0, s);

    let xs = vec![i2, i1];

    assert_eq!(xs.hit().expect("should exist"), i2);
}

#[test]
fn intersection_hit_behind() {
    let s = ShapeId::generate();
    let i1 = at(-2.0, s);
    let i2 = at(-1.0, s);

    let xs = vec![i2, i1];

    assert_eq!(xs.hit(), None)
}

#[test]
fn hit_2() {
    let s = ShapeId::generate();
    let i1 = at(5.0, s);
    let i2 = at(7.0, s);
    let i3 = at(-1.0, s);
    let i4 = at(2.0, s);

    let xs = vec![i1, i2, i3, i4];

    assert_eq!(xs.hit().expect("should exist"), i4)
}

#[test]
fn hit_of_nothing_is_none() {
    let xs: Vec<Intersection> = vec![];
    assert_eq!(xs.hit(), None);
}

#[test]
fn hit_at_the_origin_counts() {
    let s = ShapeId::from_u128(1);
    let xs = vec![at(3.0, s), at(0.0, s), at(-4.0, s)];
    assert_eq!(xs.hit().expect("should exist").t, 0.0f64.to_bits());
    let xs = vec![at(3.0, s), at(-0.0, s)];
    assert_eq!(xs.hit().expect("should exist").t, (-0.0f64).to_bits());
}

#[test]
fn hit_passes_over_what_is_no_number() {
    let s = ShapeId::from_u128(1);
    let xs = vec![at(f64::NAN, s), at(9.0, s)];
    assert_eq!(xs.hit().expect("should exist").t, 9.0f64.to_bits());
    let xs = vec![at(f64::NAN, s)];
    assert_eq!(xs.hit(), None);
}

#[test]
fn hit_takes_the_first_of_equals() {
    let a = ShapeId::from_u128(1);
    let b = ShapeId::from_u128(2);
    let xs = vec![at(6.0, a), at(2.5, b), at(2.5, a), at(-1.0, a)];
    let h = xs.hit().expect("should exist");
    assert_eq!(h.t, 2.5f64.to_bits());
    assert_eq!(h.object, b);
}

#[test]
fn intersections_compare_as_numbers() {
    let a = ShapeId::from_u128(1);
    let b = ShapeId::from_u128(2);
    assert_eq!(at(1.0, a), at(1.0, a));
    assert_ne!(at(1.0, a), at(1.0, b));
    assert_ne!(at(1.0, a), at(2.0, a));
    assert_eq!(at(0.0, a), at(-0.0, a));
    assert_ne!(at(f64::NAN, a), at(f64::NAN, a));
}

#[test]
fn new_keeps_its_arguments() {
    let s = ShapeId::from_u128(77);
    let i = Intersection::new(4.0f64.to_bits(), s);
    assert_eq!(f64::from_bits(i.t), 4.0);
    assert_eq!(i.object, s);
}

#[test]
fn nearer_compares_the_parameters_in_the_total_order() {
    let a = ShapeId::from_u128(1);
    let at = |t: f64| at(t, a);
    let values = [f64::NEG_INFINITY, -7.0, -0.0, 0.0, 5e-324, 1.0, 4.5, f64::INFINITY, f64::NAN];
    for x in values {
        for y in values {
            assert_eq!(nearer(&at(x), &at(y)), x.total_cmp(&y), "{x:?} and {y:?}");
        }
    }
    assert_eq!(nearer(&at(-0.0), &at(0.0)), Ordering::Less);
    assert_eq!(nearer(&at(2.0), &at(2.0)), Ordering::Equal);
    assert_eq!(nearer(&at(3.0), &at(2.0)), Ordering::Greater);
}
