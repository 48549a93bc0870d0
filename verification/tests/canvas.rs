use raytracer::canvas::Canvas;

#[derive(Clone, Copy, Debug, Default, PartialEq)]
struct Colour {
    red: f64,
    green: f64,
    blue: f64,
}

fn colour(red: i32, green: i32, blue: i32) -> Colour {
    Colour { red: f64::from(red), green: f64::from(green), blue: f64::from(blue) }
}

#[test]
fn index() {
    let c: Canvas<Colour> = Canvas::new(5, 5);
    assert!(c.vec().iter().all(|v| *v == Colour::default()));
}

#[test]
fn iter() {
    let c: Canvas<Colour> = Canvas::new(10, 10);
    assert_eq!(c.iter().iter().count(), 100);
    for n in c.iter().iter() {
        assert!(*n == Colour::default())
    }
}

#[test]
fn index_assign() {
    let mut c: Canvas<Colour> = Canvas::new(10, 10);

    c.set(4, 4, colour(1, 2, 3));

    assert_eq!(c[(4, 4)], colour(1, 2, 3))
}

#[test]
fn new_with_colour_fills_every_cell() {
    let c = Canvas::new_with_colour(3, 2, colour(1, 0, 0));
    assert_eq!(c.width(), 3);
    assert_eq!(c.height(), 2);
    assert_eq!(c.vec().len(), 6);
    assert!(c.vec().iter().all(|v| *v == colour(1, 0, 0)));
    let none = Canvas::new_with_colour(0, 7, 1u8);
    assert_eq!(none.vec().len(), 0);
}

#[test]
fn cells_are_stored_row_after_row() {
    let mut c = Canvas::new_with_colour(3, 2, 0u32);
    c.set(0, 0, 1);
    c.set(2, 0, 2);
    c.set(0, 1, 3);
    c.set(2, 1, 4);
    assert_eq!(c.vec(), &vec![1, 0, 2, 3, 0, 4]);
    assert_eq!(c.iter(), vec![1, 0, 2, 3, 0, 4]);
    assert_eq!(c[(2, 0)], 2);
    assert_eq!(c[(0, 1)], 3);
    assert_eq!(c[(1, 1)], 0);
}

#[test]
fn write_all_lets_the_later_write_stand() {
    let mut c = Canvas::new_with_colour(2, 2, 0u32);
    c.write_all(&vec![(1, 1, 5), (0, 1, 6), (1, 1, 7)]);
    assert_eq!(c.vec(), &vec![0, 0, 6, 7]);
    c.write_all(&vec![]);
    assert_eq!(c.vec(), &vec![0, 0, 6, 7]);
}

#[test]
fn clone_keeps_the_cells() {
    let mut c = Canvas::new_with_colour(2, 2, 0u32);
    c.set(1, 0, 9);
    let d = c.clone();
    assert_eq!(c, d);
    assert_eq!(d[(1, 0)], 9);
}
