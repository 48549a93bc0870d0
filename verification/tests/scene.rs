use raytracer::camera::{Camera, CHUNKS};
use raytracer::canvas::Canvas;
use raytracer::colour::Colour;
use raytracer::intersection::{IntersectVec, Intersection};
use raytracer::lights::{Light, PointLight};
use raytracer::materials::Material;
use raytracer::math::arithmetic::Arithmetic;
use raytracer::math::matrix::Matrix;
use raytracer::math::tuple::Tuple;
use raytracer::ray::Ray;
use raytracer::shape::plane::Plane;
use raytracer::shape::sphere::Sphere;
use raytracer::shape::ShapeBase;
use raytracer::world::World;
use std::f64::consts::{FRAC_PI_2, FRAC_PI_4, SQRT_2};

/// Arithmetic in floating point, on the bit patterns of the numbers.
struct Floats;

fn f(bits: u64) -> f64 {
    f64::from_bits(bits)
}

fn b(value: f64) -> u64 {
    value.to_bits()
}

impl Arithmetic<u64> for Floats {
    fn number(&self, n: i32) -> u64 {
        b(f64::from(n))
    }

    fn count(&self, n: usize) -> u64 {
        b(n as f64)
    }

    fn plus(&self, x: u64, y: u64) -> u64 {
        b(f(x) + f(y))
    }

    fn minus(&self, x: u64, y: u64) -> u64 {
        b(f(x) - f(y))
    }

    fn times(&self, x: u64, y: u64) -> u64 {
        b(f(x) * f(y))
    }

    fn over(&self, x: u64, y: u64) -> u64 {
        b(f(x) / f(y))
    }

    fn negate(&self, x: u64) -> u64 {
        b(-f(x))
    }

    fn is_zero(&self, x: u64) -> bool {
        f(x) == 0.0
    }

    fn sqrt(&self, x: u64) -> u64 {
        b(f(x).sqrt())
    }

    fn sin(&self, x: u64) -> u64 {
        b(f(x).sin())
    }

    fn cos(&self, x: u64) -> u64 {
        b(f(x).cos())
    }

    fn tan(&self, x: u64) -> u64 {
        b(f(x).tan())
    }

    fn powf(&self, x: u64, y: u64) -> u64 {
        b(f(x).powf(f(y)))
    }

    fn round(&self, x: u64) -> u64 {
        b(f(x).round())
    }

    fn byte(&self, x: u64) -> u8 {
        f(x) as u8
    }

    fn parse(&self, text: &Vec<u8>) -> Option<u64> {
        std::str::from_utf8(text).ok()?.parse::<f64>().ok().map(b)
    }
}

type Scene = World<Sphere, PointLight>;

fn same(a: Tuple<u64>, c: Tuple<u64>) -> bool {
    a.eq(&c, &Floats)
}

fn alike(a: Colour, c: Colour) -> bool {
    a.eq(&c, &Floats)
}

fn colour(red: f64, green: f64, blue: f64) -> Colour {
    Colour::new(b(red), b(green), b(blue))
}

fn pointi(x: i32, y: i32, z: i32) -> Tuple<u64> {
    Tuple::pointi(x, y, z, &Floats)
}

fn vectori(x: i32, y: i32, z: i32) -> Tuple<u64> {
    Tuple::vectori(x, y, z, &Floats)
}

fn point(x: f64, y: f64, z: f64) -> Tuple<u64> {
    Tuple::point(b(x), b(y), b(z))
}

fn vector(x: f64, y: f64, z: f64) -> Tuple<u64> {
    Tuple::vector(b(x), b(y), b(z))
}

/// A camera with a transform, which has to have an inverse.
fn camera(hsize: usize, vsize: usize, fov: f64, transform: Matrix<u64>) -> Camera {
    assert!(transform.can_invert(&Floats), "Must be invertable.");
    Camera::new_with_transform(hsize, vsize, b(fov), transform, &Floats)
}

fn looking_at_the_spheres() -> Camera {
    camera(
        11,
        11,
        FRAC_PI_2,
        Matrix::view_transform(pointi(0, 0, -5), pointi(0, 0, 0), vectori(0, 1, 0), &Floats)
            .expect("a view"),
    )
}

#[test]
fn default() {
    let w: Scene = Default::default();

    assert_eq!(f(w.objects[0].material().diffuse), 0.7);
    assert_eq!(f(w.objects[0].material().specular), 0.2);
    assert!(alike(w.objects[0].material().colour, colour(0.8, 1.0, 0.6)));

    assert!(w.objects[1].transform().eq(&Matrix::scaling(b(0.5), b(0.5), b(0.5)), &Floats));

    assert!(alike(*w.light[0].intensity(), Colour::newi(1, 1, 1, &Floats)));
    assert!(same(*w.light[0].position(), pointi(-10, 10, -10)));
}

#[test]
fn intersect_world() {
    let world = Scene::default();
    let ray = Ray::new(pointi(0, 0, -5), vectori(0, 0, 1));

    let xs = world.intersect_world(ray, &Floats).unwrap();

    assert_eq!(xs.len(), 4);

    let expected = vec![4.0, 4.5, 5.5, 6.0];

    for (i, (got, want)) in xs.iter().zip(expected).enumerate() {
        assert_eq!(f(got.t), want, "broke for {i}")
    }
}

#[test]
fn outside() {
    let w = Scene::default();
    let ray = Ray::new(pointi(0, 0, -5), vectori(0, 0, 1));
    let shape = &w.objects[0];
    let i = Intersection::new(b(4.0), shape.id());

    let comps = i.prepare_computations(ray, shape, &Floats);
    let c = w.shade_hit(comps, &Floats).unwrap();

    assert!(alike(c, colour(0.38066, 0.47583, 0.2855)));
}

#[test]
fn inside() {
    let mut w = Scene::default();
    w.light = vec![PointLight::new(Colour::white(), point(0.0, 0.25, 0.0))];
    let ray = Ray::new(pointi(0, 0, 0), vectori(0, 0, 1));
    let shape = &w.objects[1];
    let i = Intersection::new(b(0.5), shape.id());

    let comps = i.prepare_computations(ray, shape, &Floats);
    let c = w.shade_hit(comps, &Floats).unwrap();

    assert!(alike(c, colour(0.90498, 0.90498, 0.90498)))
}

#[test]
fn shadowed_hit() {
    let w: Scene = World::new(
        vec![
            Sphere::default(),
            Sphere::new_with_transform(Matrix::translationi(0, 0, 10, &Floats)),
        ],
        vec![PointLight::new(Colour::white(), pointi(0, 0, -10))],
    );

    let r = Ray::new(pointi(0, 0, 5), vectori(0, 0, 1));
    let i = Intersection::new(b(4.0), w.objects[1].id());

    let comps = i.prepare_computations(r, &w.objects[1], &Floats);

    assert!(alike(w.shade_hit(comps, &Floats).unwrap(), colour(0.1, 0.1, 0.1)));
}

#[test]
fn miss() {
    let w = Scene::default();
    let r = Ray::new(pointi(0, 0, -5), vectori(0, 1, 0));

    assert!(alike(w.colour_at(r, &Floats).unwrap(), Colour::black()))
}

#[test]
fn world_hit() {
    let w = Scene::default();
    let r = Ray::new(pointi(0, 0, -5), vectori(0, 0, 1));

    assert!(alike(w.colour_at(r, &Floats).unwrap(), colour(0.38066, 0.47583, 0.2855)))
}

#[test]
fn world_hit_behind() {
    let bright = Material { ambient: b(1.0), ..Material::default() };
    let w: Scene = World::new(
        vec![Sphere::new_with_material(bright), Sphere::new_with_material(bright)],
        Scene::default().light,
    );
    let ray = Ray::new(point(0.0, 0.0, 0.75), vectori(0, 0, -1));

    assert!(alike(w.colour_at(ray, &Floats).unwrap(), w.objects[1].material().colour))
}

#[test]
fn shadows_in_the_default_world() {
    let w = Scene::default();
    assert_eq!(w.is_shadowed(pointi(0, 10, 0), &Floats), Ok(false));
    assert_eq!(w.is_shadowed(pointi(10, -10, 10), &Floats), Ok(true));
    assert_eq!(w.is_shadowed(pointi(-20, 20, -20), &Floats), Ok(false));
    assert_eq!(w.is_shadowed(pointi(-2, 2, -2), &Floats), Ok(false));
    assert_eq!(w.is_shadowed_by(&w.light[0], pointi(10, -10, 10), &Floats), Ok(true));
}

#[test]
fn two_lights_give_the_mean() {
    let one = Scene::default();
    let mut two = Scene::default();
    two.objects = Scene::default().objects;
    two.light = vec![
        PointLight::new(Colour::white(), pointi(-10, 10, -10)),
        PointLight::new(Colour::black(), pointi(-10, 10, -10)),
    ];
    let r = Ray::new(pointi(0, 0, -5), vectori(0, 0, 1));
    let full = one.colour_at(r, &Floats).unwrap();
    let half = two.colour_at(r, &Floats).unwrap();
    assert!(alike(half, full.div_scalar(b(2.0), &Floats)));
}

#[test]
fn the_hit_on_the_outer_sphere_is_the_near_crossing() {
    let w = Scene::default();
    let r = Ray::new(pointi(0, 0, -5), vectori(0, 0, 1));
    let xs = w.intersect_world(r, &Floats).unwrap();
    let hit = xs.hit().expect("should exist");
    assert_eq!(f(hit.t), 4.0);
    assert_eq!(hit.object, w.objects[0].id());
    assert_eq!(w.shape_of(hit.object), Some(0));
    assert_eq!(w.shape_of(w.objects[1].id()), Some(1));
}

#[test]
fn a_scene_with_a_flat_shape_cannot_be_rendered() {
    let w: Scene = World::new(
        vec![Sphere::default(), Sphere::new_with_transform(Matrix::scalingi(1, 0, 1, &Floats))],
        Scene::default().light,
    );
    assert!(!w.objects[1].transform().can_invert(&Floats));
    assert!(!w.is_ready(&Floats));
    assert!(Scene::default().is_ready(&Floats));
}

#[test]
fn a_scene_with_one_shape_twice_cannot_be_rendered() {
    let floor = Plane::default();
    let twice: World<Plane, PointLight> =
        World::new(vec![floor.clone(), floor.clone()], Scene::default().light);
    assert!(!twice.is_ready(&Floats));
    let once: World<Plane, PointLight> =
        World::new(vec![floor, Plane::default()], Scene::default().light);
    assert!(once.is_ready(&Floats));
}

#[test]
fn a_scene_without_a_light_is_black_where_nothing_is_hit() {
    let w: Scene = World::new(vec![Sphere::default()], vec![]);
    assert!(w.is_ready(&Floats));
    let away = Ray::new(pointi(0, 0, -5), vectori(0, 1, 0));
    assert_eq!(w.intersect_world(away, &Floats).unwrap().len(), 0);
    assert_eq!(w.colour_at(away, &Floats), Ok(Colour::black()));

    let empty: Scene = World::new(vec![], vec![]);
    let c = looking_at_the_spheres();
    let image = c.render(&empty, &Floats).unwrap();
    assert_eq!(image, Canvas::new_with_colour(11, 11, Colour::black()));
}

#[test]
fn precompute() {
    let r = Ray::new(pointi(0, 0, -5), vectori(0, 0, 1));
    let shape = Sphere::default();
    let intersection = Intersection::new(b(4.0), shape.id());

    let comps = intersection.prepare_computations(r, &shape, &Floats);

    assert_eq!(comps.object, shape.id());
    assert_eq!(comps.t, intersection.t);
    assert!(same(comps.point, pointi(0, 0, -1)));
    assert!(same(comps.eye_vector, vectori(0, 0, -1)));
    assert!(same(comps.normal_vector, vectori(0, 0, -1)));
}

#[test]
fn precompute_outside() {
    let ray = Ray::new(pointi(0, 0, -5), vectori(0, 0, 1));
    let s = &Sphere::default();
    let i = Intersection::new(b(4.0), s.id());

    let comps = i.prepare_computations(ray, s, &Floats);

    assert!(!comps.inside);
}

#[test]
fn precompute_inside() {
    let ray = Ray::new(pointi(0, 0, 0), vectori(0, 0, 1));
    let s = &Sphere::default();
    let i = Intersection::new(b(1.0), s.id());

    let comps = i.prepare_computations(ray, s, &Floats);

    assert!(same(comps.point, pointi(0, 0, 1)));
    assert!(same(comps.eye_vector, vectori(0, 0, -1)));
    assert!(same(comps.normal_vector, vectori(0, 0, -1)));
    assert!(comps.inside);
}

#[test]
fn the_over_point_lies_off_the_surface() {
    let ray = Ray::new(pointi(0, 0, -5), vectori(0, 0, 1));
    let s = Sphere::new_with_transform(Matrix::translationi(0, 0, 1, &Floats));
    let i = Intersection::new(b(5.0), s.id());
    let comps = i.prepare_computations(ray, &s, &Floats);
    assert!(f(comps.over_point.z) < -0.00001 / 2.0);
    assert!(f(comps.point.z) > f(comps.over_point.z));
    assert_eq!(comps.material, *s.material());
}

#[test]
fn pixel_size_horiz() {
    let c = Camera::new(200, 125, b(FRAC_PI_2), &Floats).unwrap();

    assert!((f(c.pixel_size) - 0.01).abs() < 0.00001);
}

#[test]
fn pixel_size_vert() {
    let c = Camera::new(125, 200, b(FRAC_PI_2), &Floats).unwrap();

    assert!((f(c.pixel_size) - 0.01).abs() < 0.00001);
}

#[test]
fn ray_center() {
    let c = Camera::new(201, 101, b(FRAC_PI_2), &Floats).unwrap();
    let r = c.ray_for_pixel(100, 50, &Floats).unwrap();

    assert!(same(r.origin, point(0.0, 0.0, 0.0)));
    assert!(same(r.direction, vector(0.0, 0.0, -1.0)));
}

#[test]
fn corner() {
    let c = Camera::new(201, 101, b(FRAC_PI_2), &Floats).unwrap();
    let r = c.ray_for_pixel(0, 0, &Floats).unwrap();

    assert!(same(r.origin, point(0.0, 0.0, 0.0)));
    assert!(same(r.direction, vector(0.66519, 0.33259, -0.66851)));
}

#[test]
fn transformed() {
    let c = camera(
        201,
        101,
        FRAC_PI_2,
        Matrix::translation(b(0.0), b(-2.0), b(5.0)).rotate_y(b(FRAC_PI_4), &Floats),
    );
    let r = c.ray_for_pixel(100, 50, &Floats).unwrap();

    assert!(same(r.origin, point(0.0, 2.0, -5.0)));
    assert!(same(r.direction, vector(SQRT_2 / 2.0, 0.0, -(SQRT_2 / 2.0))));
}

#[test]
fn render() {
    let w: Scene = Default::default();
    let c = looking_at_the_spheres();

    let image = c.render(&w, &Floats).unwrap();

    assert!(alike(image[(5, 5)], colour(0.38066, 0.47583, 0.2855)))
}

#[test]
fn render_parallel() {
    let w: Scene = Default::default();
    let c = looking_at_the_spheres();
    let colour_of = |x: usize, y: usize| {
        w.colour_at(c.ray_for_pixel(x, y, &Floats).unwrap(), &Floats).unwrap()
    };

    // The workers' turns are taken one after the other here, the last first.
    let mut reports = vec![];
    for k in (0..CHUNKS).rev() {
        reports.extend(c.frame().render_chunk(k, &colour_of));
    }
    assert_eq!(reports.len(), 121);
    let image = c.frame().collect(Colour::black(), &reports);

    // The same reports, each written by itself.
    let mut written = Canvas::new_with_colour(11, 11, Colour::red());
    for report in &reports {
        written.write_all(&vec![*report]);
    }
    assert_eq!(written, image);

    assert!(alike(image[(5, 5)], colour(0.38066, 0.47583, 0.2855)));
    assert_eq!(image, c.render(&w, &Floats).unwrap());
    assert_eq!(image, c.frame().render(Colour::black(), colour_of));
}

#[test]
fn a_camera_needs_a_transform_with_an_inverse() {
    let flat = Matrix::scalingi(1, 1, 0, &Floats);
    assert!(!flat.can_invert(&Floats));
    assert!(flat.inverse(&Floats).is_none());
    let moved = Matrix::translationi(0, 0, 3, &Floats);
    assert!(moved.can_invert(&Floats));
    let c = Camera::new_with_transform(10, 10, b(FRAC_PI_2), moved.clone(), &Floats);
    assert_eq!(c.transform, moved);
    assert!(c.inverse_transform.eq(&Matrix::translationi(0, 0, -3, &Floats), &Floats));
    let plain = Camera::new(10, 10, b(FRAC_PI_2), &Floats).unwrap();
    assert_eq!(plain.transform, Matrix::identity());
    assert!(plain.inverse_transform.eq(&Matrix::identity(), &Floats));
}

#[test]
fn the_rendered_frame_as_text() {
    let w: Scene = Default::default();
    let c = camera(
        3,
        2,
        FRAC_PI_2,
        Matrix::view_transform(pointi(0, 0, -5), pointi(0, 0, 0), vectori(0, 1, 0), &Floats)
            .expect("a view"),
    );
    let text = c.render(&w, &Floats).unwrap().into_ppm(&Floats);
    let lines: Vec<&str> = text.lines().collect();
    assert_eq!(lines[0], "P3");
    assert_eq!(lines[1], "3 2");
    assert_eq!(lines[2], "255");
    assert_eq!(lines.len(), 5);
    assert_eq!(lines[3].split(' ').count(), 9);
}
