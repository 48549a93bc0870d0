use raytracer::camera::{Frame, CHUNKS};
use raytracer::canvas::Canvas;

fn shade(x: usize, y: usize) -> (f64, f64, f64) {
    (x as f64 / 8.0, y as f64 / 8.0, ((x * 31 + y * 17) % 7) as f64)
}

#[test]
fn pixels_go_down_the_columns() {
    let c = Frame::new(3, 2);
    assert_eq!(c.pixel_count(), 6);
    let order: Vec<(usize, usize)> = (0..6).map(|i| c.pixel(i)).collect();
    assert_eq!(order, vec![(0, 0), (0, 1), (1, 0), (1, 1), (2, 0), (2, 1)]);
}

#[test]
fn chunk_starts_split_the_frame_evenly() {
    let c = Frame::new(11, 11);
    let starts: Vec<usize> = (0..=CHUNKS).map(|k| c.chunk_start(k)).collect();
    assert_eq!(starts, vec![0, 7, 15, 22, 30, 37, 45, 52, 60, 68, 75, 83, 90, 98, 105, 113, 121]);
    let even = Frame::new(8, 4);
    let starts: Vec<usize> = (0..=CHUNKS).map(|k| even.chunk_start(k)).collect();
    assert_eq!(starts, (0..=16).map(|k| 2 * k).collect::<Vec<usize>>());
}

#[test]
fn work_is_sixteen_chunks_that_cover_the_frame_once() {
    for (h, v) in [(11, 11), (5, 3), (1, 1), (0, 4), (4, 0), (16, 16), (7, 13)] {
        let c = Frame::new(h, v);
        let work = c.work();
        assert_eq!(work.len(), 16);
        let all: Vec<(usize, usize)> = work.iter().flatten().copied().collect();
        let expected: Vec<(usize, usize)> =
            (0..h).flat_map(|x| (0..v).map(move |y| (x, y))).collect();
        assert_eq!(all, expected);
        for (k, chunk) in work.iter().enumerate() {
            assert_eq!(chunk, &c.chunk(k));
            assert_eq!(chunk.len(), c.chunk_start(k + 1) - c.chunk_start(k));
        }
    }
}

#[test]
fn small_frames_leave_chunks_empty() {
    let c = Frame::new(2, 1);
    let work = c.work();
    let sizes: Vec<usize> = work.iter().map(|w| w.len()).collect();
    assert_eq!(sizes, vec![0, 0, 0, 0, 0, 0, 0, 1, 0, 0, 0, 0, 0, 0, 0, 1]);
}

#[test]
fn render_fills_every_pixel() {
    let c = Frame::new(11, 7);
    let image = c.render((0.0, 0.0, 0.0), shade);
    assert_eq!(image.width(), 11);
    assert_eq!(image.height(), 7);
    for x in 0..11 {
        for y in 0..7 {
            assert_eq!(image[(x, y)], shade(x, y));
        }
    }
}

#[test]
fn render_of_no_pixels_is_empty() {
    let c = Frame::new(0, 5);
    let image = c.render(0u8, |_x, _y| 1u8);
    assert_eq!(image.vec().len(), 0);
}

#[test]
fn render_chunk_reports_pixel_and_colour() {
    let c = Frame::new(11, 11);
    let reports = c.render_chunk(1, &shade);
    assert_eq!(reports.len(), 8);
    assert_eq!(reports[0], (0, 7, shade(0, 7)));
    assert_eq!(reports[7], (1, 3, shade(1, 3)));
}

#[test]
fn chunks_in_any_order_give_the_sequential_frame() {
    let c = Frame::new(11, 11);
    let sequential = c.render((0.0, 0.0, 0.0), shade);

    // The workers report in an order of their own: here last chunk first,
    // and every chunk back to front.
    let mut reports: Vec<(usize, usize, (f64, f64, f64))> = Vec::new();
    for k in (0..CHUNKS).rev() {
        let mut part = c.render_chunk(k, &shade);
        part.reverse();
        reports.extend(part);
    }
    let mut parallel = Canvas::new_with_colour(11, 11, (0.0, 0.0, 0.0));
    parallel.write_all(&reports);
    assert_eq!(parallel, sequential);

    // One report at a time, chunks interleaved.
    let parts: Vec<Vec<(usize, usize, (f64, f64, f64))>> =
        (0..CHUNKS).map(|k| c.render_chunk(k, &shade)).collect();
    let mut interleaved = Canvas::new_with_colour(11, 11, (9.0, 9.0, 9.0));
    for j in 0..8 {
        for part in &parts {
            if let Some(&(x, y, colour)) = part.get(j) {
                interleaved.set(x, y, colour);
            }
        }
    }
    assert_eq!(interleaved, sequential);
}
