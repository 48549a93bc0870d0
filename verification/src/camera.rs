//! The camera: the frame it renders to, and the rays it sends through the
//! pixels of the frame.
//!
//! A [`Frame`] is the grid of pixels alone: the order in which it is
//! rendered, how its pixels are dealt out to workers, and how it is put
//! together, with the colour of a pixel handed in as a function of the
//! pixel's column and row. A [`Camera`] adds where the eye is and how wide
//! it looks, and renders a scene.
use crate::canvas::{written, Canvas};
use crate::colour::Colour;
use crate::lights::Light;
use crate::math::arithmetic::{
    counted, difference, functional, product, quotient, sum, tangent, Arithmetic,
};
use crate::math::float::{HALF, MINUS_ONE, ONE, TWO, ZERO};
use crate::math::layout::{cell_index, lemma_cell_index, lemma_cell_index_injective};
use crate::math::matrix::algebra::{image_of, invertible, is_inverse};
use crate::math::matrix::transform::spec_identity;
use crate::math::matrix::Matrix;
use crate::math::order::{at_least, spec_at_most};
use crate::math::tuple::{normalized, spec_is_point, spec_is_vector, tuple_difference, Tuple};
use crate::ray::Ray;
use crate::shape::{SceneError, Shape};
use crate::world::World;
use vstd::prelude::*;

verus! {

/// The number of chunks into which the pixels of a frame are dealt, one to
/// each worker.
pub const CHUNKS: usize = 16;

/// A grid of pixels: `hsize` columns of `vsize` pixels.
#[derive(Clone, Copy, Debug, PartialEq, Eq, Structural)]
pub struct Frame {
    /// The number of columns.
    pub hsize: usize,
    /// The number of rows.
    pub vsize: usize,
}

/// The raster that a frame renders to where `colour` gives each pixel's
/// colour: cell `(x, y)` holds `colour(x, y)`.
pub open spec fn rendered<T>(frame: Frame, colour: spec_fn(int, int) -> T) -> Seq<T> {
    Seq::new(
        frame.spec_pixel_count() as nat,
        |i: int| colour(i % (frame.hsize as int), i / (frame.hsize as int)),
    )
}

impl Frame {
    /// The number of pixels.
    pub open spec fn spec_pixel_count(&self) -> int {
        self.hsize * self.vsize
    }

    /// Whether the pixels can be counted in a machine word.
    pub open spec fn countable(&self) -> bool {
        self.spec_pixel_count() <= usize::MAX
    }

    /// The pixel rendered as the `index`th, counting from zero: the columns
    /// are taken from left to right and each column from top to bottom.
    pub open spec fn spec_pixel(&self, index: int) -> (usize, usize) {
        ((index / (self.vsize as int)) as usize, (index % (self.vsize as int)) as usize)
    }

    /// Where chunk `k` begins in render order. Chunk 16 would begin where
    /// the frame ends.
    pub open spec fn spec_chunk_start(&self, k: int) -> int {
        (k * self.spec_pixel_count()) / (CHUNKS as int)
    }

    /// The pixels of chunk `k`, in render order.
    pub open spec fn spec_chunk(&self, k: int) -> Seq<(usize, usize)> {
        Seq::new(
            (self.spec_chunk_start(k + 1) - self.spec_chunk_start(k)) as nat,
            |j: int| self.spec_pixel(self.spec_chunk_start(k) + j),
        )
    }

    /// A grid of `hsize` columns and `vsize` rows.
    pub fn new(hsize: usize, vsize: usize) -> (frame: Self)
        ensures
            frame.hsize == hsize,
            frame.vsize == vsize,
    {
        Frame { hsize, vsize }
    }

    /// The number of pixels.
    pub fn pixel_count(&self) -> (n: usize)
        requires
            self.countable(),
        ensures
            n == self.spec_pixel_count(),
    {
        self.hsize * self.vsize
    }

    /// The pixel rendered as the `index`th.
    pub fn pixel(&self, index: usize) -> (p: (usize, usize))
        requires
            index < self.spec_pixel_count(),
        ensures
            p == self.spec_pixel(index as int),
            p.0 < self.hsize,
            p.1 < self.vsize,
            p.0 * self.vsize + p.1 == index,
    {
        proof {
            self.lemma_pixel(index as int);
        }
        (index / self.vsize, index % self.vsize)
    }

    /// Where chunk `k` begins in render order.
    pub fn chunk_start(&self, k: usize) -> (start: usize)
        requires
            self.countable(),
            k <= CHUNKS,
        ensures
            start == self.spec_chunk_start(k as int),
            start <= self.spec_pixel_count(),
    {
        let total = self.hsize * self.vsize;
        let q = total / CHUNKS;
        let r = total % CHUNKS;
        proof {
            let n = total as int;
            let k = k as int;
            let q = q as int;
            let r = r as int;
            assert(n == 16 * q + r);
            let b = k * r;
            assert(0 <= b <= 16 * 15) by (nonlinear_arith)
                requires
                    0 <= k <= 16,
                    0 <= r < 16,
                    b == k * r,
            ;
            assert(k * n == (k * q + b / 16) * 16 + b % 16) by (nonlinear_arith)
                requires
                    n == 16 * q + r,
                    b == k * r,
                    b == 16 * (b / 16) + b % 16,
            ;
            vstd::arithmetic::div_mod::lemma_fundamental_div_mod_converse(
                k * n,
                16,
                k * q + b / 16,
                b % 16,
            );
            assert(k * q <= 16 * q) by (nonlinear_arith)
                requires
                    0 <= k <= 16,
                    0 <= q,
            ;
            self.lemma_chunk_starts(k);
        }
        k * q + (k * r) / CHUNKS
    }

    /// The pixels of chunk `k`, in render order.
    pub fn chunk(&self, k: usize) -> (pixels: Vec<(usize, usize)>)
        requires
            self.countable(),
            k < CHUNKS,
        ensures
            pixels@ == self.spec_chunk(k as int),
    {
        let start = self.chunk_start(k);
        let end = self.chunk_start(k + 1);
        proof {
            self.lemma_chunk_starts(k as int);
            self.lemma_chunk_starts(k + 1);
            self.lemma_chunk_starts_ascend(k as int, k + 1);
        }
        let mut pixels: Vec<(usize, usize)> = Vec::new();
        let mut i: usize = start;
        while i < end
            invariant
                start <= i <= end,
                end <= self.spec_pixel_count(),
                pixels.len() == i - start,
                forall|j: int| 0 <= j < i - start ==> #[trigger] pixels@[j] == self.spec_pixel(start + j),
            decreases end - i,
        {
            pixels.push(self.pixel(i));
            i += 1;
        }
        proof {
            assert(pixels@ =~= self.spec_chunk(k as int));
        }
        pixels
    }

    /// The work list of a frame: its sixteen chunks, in order.
    pub fn work(&self) -> (chunks: Vec<Vec<(usize, usize)>>)
        requires
            self.countable(),
        ensures
            chunks.len() == CHUNKS,
            forall|k: int| 0 <= k < CHUNKS ==> (#[trigger] chunks[k])@ == self.spec_chunk(k),
    {
        let mut chunks: Vec<Vec<(usize, usize)>> = Vec::new();
        let mut k: usize = 0;
        while k < CHUNKS
            invariant
                k <= CHUNKS,
                self.countable(),
                chunks.len() == k,
                forall|j: int| 0 <= j < k ==> (#[trigger] chunks[j])@ == self.spec_chunk(j),
            decreases CHUNKS - k,
        {
            chunks.push(self.chunk(k));
            k += 1;
        }
        chunks
    }

    /// Renders a frame: every pixel gets the colour that `colour_at` gives
    /// for its column and row. The pixels are visited in render order;
    /// `blank` fills the raster before the first is rendered.
    pub fn render<T: Copy, F: Fn(usize, usize) -> T>(&self, blank: T, colour_at: F) -> (canvas:
        Canvas<T>)
        requires
            self.countable(),
            forall|x: usize, y: usize| x < self.hsize && y < self.vsize ==> call_requires(colour_at, (x, y)),
        ensures
            canvas.spec_width() == self.hsize,
            canvas.spec_height() == self.vsize,
            canvas.wf(),
            forall|x: usize, y: usize|
                x < self.hsize && y < self.vsize ==> call_ensures(
                    colour_at,
                    (x, y),
                    #[trigger] canvas.spec_index(x as int, y as int),
                ),
    {
        let mut canvas = Canvas::new_with_colour(self.hsize, self.vsize, blank);
        let mut x: usize = 0;
        while x < self.hsize
            invariant
                x <= self.hsize,
                canvas.spec_width() == self.hsize,
                canvas.spec_height() == self.vsize,
                canvas.wf(),
                forall|px: usize, py: usize|
                    px < self.hsize && py < self.vsize ==> call_requires(colour_at, (px, py)),
                forall|px: usize, py: usize|
                    px < x && py < self.vsize ==> call_ensures(
                        colour_at,
                        (px, py),
                        #[trigger] canvas.spec_index(px as int, py as int),
                    ),
            decreases self.hsize - x,
        {
            let mut y: usize = 0;
            while y < self.vsize
                invariant
                    x < self.hsize,
                    y <= self.vsize,
                    canvas.spec_width() == self.hsize,
                    canvas.spec_height() == self.vsize,
                    canvas.wf(),
                    forall|px: usize, py: usize|
                        px < self.hsize && py < self.vsize ==> call_requires(colour_at, (px, py)),
                    forall|px: usize, py: usize|
                        (px < x && py < self.vsize) || (px == x && py < y) ==> call_ensures(
                            colour_at,
                            (px, py),
                            #[trigger] canvas.spec_index(px as int, py as int),
                        ),
                decreases self.vsize - y,
            {
                let colour = colour_at(x, y);
                let ghost before = canvas;
                canvas.set(x, y, colour);
                proof {
                    let w = self.hsize as int;
                    lemma_cell_index(w, self.vsize as int, x as int, y as int);
                    assert forall|px: usize, py: usize|
                        (px < x && py < self.vsize) || (px == x && py < y + 1) implies call_ensures(
                        colour_at,
                        (px, py),
                        #[trigger] canvas.spec_index(px as int, py as int),
                    ) by {
                        lemma_cell_index(w, self.vsize as int, px as int, py as int);
                        if px == x && py == y {
                        } else {
                            if cell_index(w, px as int, py as int) == cell_index(w, x as int, y as int) {
                                lemma_cell_index_injective(w, px as int, py as int, x as int, y as int);
                            }
                            assert(canvas.spec_index(px as int, py as int) == before.spec_index(
                                px as int,
                                py as int,
                            ));
                        }
                    }
                }
                y += 1;
            }
            x += 1;
        }
        canvas
    }

    /// What one worker does: renders the pixels of chunk `k`, in render
    /// order, and reports each with its column and row.
    pub fn render_chunk<T, F: Fn(usize, usize) -> T>(&self, k: usize, colour_at: &F) -> (results:
        Vec<(usize, usize, T)>)
        requires
            self.countable(),
            k < CHUNKS,
            forall|x: usize, y: usize| x < self.hsize && y < self.vsize ==> call_requires(*colour_at, (x, y)),
        ensures
            results.len() == self.spec_chunk(k as int).len(),
            forall|j: int|
                0 <= j < results.len() ==> {
                    &&& (#[trigger] results[j]).0 < self.hsize
                    &&& results[j].1 < self.vsize
                    &&& (results[j].0, results[j].1) == self.spec_chunk(k as int)[j]
                    &&& call_ensures(*colour_at, (results[j].0, results[j].1), results[j].2)
                },
    {
        let start = self.chunk_start(k);
        let end = self.chunk_start(k + 1);
        proof {
            self.lemma_chunk_starts_ascend(k as int, k + 1);
        }
        let mut results: Vec<(usize, usize, T)> = Vec::new();
        let mut i: usize = start;
        while i < end
            invariant
                start <= i <= end,
                end <= self.spec_pixel_count(),
                start == self.spec_chunk_start(k as int),
                end == self.spec_chunk_start(k + 1),
                results.len() == i - start,
                forall|x: usize, y: usize|
                    x < self.hsize && y < self.vsize ==> call_requires(*colour_at, (x, y)),
                forall|j: int|
                    0 <= j < results.len() ==> {
                        &&& (#[trigger] results[j]).0 < self.hsize
                        &&& results[j].1 < self.vsize
                        &&& (results[j].0, results[j].1) == self.spec_chunk(k as int)[j]
                        &&& call_ensures(*colour_at, (results[j].0, results[j].1), results[j].2)
                    },
            decreases end - i,
        {
            let (x, y) = self.pixel(i);
            let colour = colour_at(x, y);
            results.push((x, y, colour));
            i += 1;
        }
        results
    }

    /// What the collector does: puts the reports of the workers onto a
    /// raster that holds `blank` everywhere, one after the other as they
    /// came in. Once every worker has reported every pixel of its chunk,
    /// each with the colour that `colour` gives it, the raster is the frame
    /// of `colour`, whatever the order of the reports.
    pub fn collect<T: Copy>(&self, blank: T, reports: &Vec<(usize, usize, T)>) -> (canvas: Canvas<T>)
        requires
            self.countable(),
            forall|i: int|
                0 <= i < reports.len() ==> (#[trigger] reports[i]).0 < self.hsize && reports[i].1
                    < self.vsize,
        ensures
            canvas.spec_width() == self.hsize,
            canvas.spec_height() == self.vsize,
            canvas.wf(),
            canvas@ == written(
                Seq::new(self.spec_pixel_count() as nat, |i: int| blank),
                self.hsize as int,
                reports@,
            ),
            forall|colour: spec_fn(int, int) -> T|
                all_reported(*self, reports@) && carry(reports@, colour) ==> canvas@ == #[trigger] rendered(
                    *self,
                    colour,
                ),
    {
        let mut canvas = Canvas::new_with_colour(self.hsize, self.vsize, blank);
        canvas.write_all(reports);
        proof {
            let start = Seq::new(self.spec_pixel_count() as nat, |i: int| blank);
            assert forall|colour: spec_fn(int, int) -> T|
                all_reported(*self, reports@) && carry(reports@, colour) implies canvas@
                == #[trigger] rendered(*self, colour) by {
                lemma_parallel_matches_sequential(*self, colour, start, reports@);
            }
        }
        canvas
    }

    /// The `index`th pixel lies on the grid, and no other pixel is the
    /// `index`th.
    pub proof fn lemma_pixel(&self, index: int)
        requires
            0 <= index < self.spec_pixel_count(),
        ensures
            self.spec_pixel(index).0 < self.hsize,
            self.spec_pixel(index).1 < self.vsize,
            self.spec_pixel(index).0 * self.vsize + self.spec_pixel(index).1 == index,
            index / (self.vsize as int) == self.spec_pixel(index).0,
            index % (self.vsize as int) == self.spec_pixel(index).1,
    {
        let v = self.vsize as int;
        let h = self.hsize as int;
        assert(v > 0) by (nonlinear_arith)
            requires
                0 <= index < h * v,
                h >= 0,
                v >= 0,
        ;
        vstd::arithmetic::div_mod::lemma_fundamental_div_mod(index, v);
        vstd::arithmetic::div_mod::lemma_mod_bound(index, v);
        vstd::arithmetic::div_mod::lemma_div_pos_is_pos(index, v);
        assert(index / v < h) by (nonlinear_arith)
            requires
                index == v * (index / v) + index % v,
                0 <= index % v < v,
                index < h * v,
                v > 0,
        ;
        assert(v * (index / v) == (index / v) * v) by (nonlinear_arith);
    }

    /// Pixel `(x, y)` is rendered as the `x * vsize + y`th.
    pub proof fn lemma_pixel_order(&self, x: int, y: int)
        requires
            0 <= x < self.hsize,
            0 <= y < self.vsize,
        ensures
            0 <= x * self.vsize + y < self.spec_pixel_count(),
            self.spec_pixel(x * self.vsize + y) == (x as usize, y as usize),
    {
        let v = self.vsize as int;
        let h = self.hsize as int;
        assert(0 <= x * v + y < h * v) by (nonlinear_arith)
            requires
                0 <= x < h,
                0 <= y < v,
        ;
        vstd::arithmetic::div_mod::lemma_fundamental_div_mod_converse(x * v + y, v, x, y);
    }

    /// The first chunk begins with the frame, the last ends with it, and
    /// every chunk begins inside the frame.
    pub proof fn lemma_chunk_starts(&self, k: int)
        requires
            0 <= k <= CHUNKS,
        ensures
            self.spec_chunk_start(0) == 0,
            self.spec_chunk_start(CHUNKS as int) == self.spec_pixel_count(),
            0 <= self.spec_chunk_start(k) <= self.spec_pixel_count(),
    {
        let n = self.spec_pixel_count();
        assert(n >= 0) by (nonlinear_arith)
            requires
                n == self.hsize * self.vsize,
        ;
        assert(0 * n == 0);
        assert((16 * n) / 16 == n);
        assert(0 <= k * n <= 16 * n) by (nonlinear_arith)
            requires
                0 <= k <= 16,
                n >= 0,
        ;
    }

    /// A later chunk begins no earlier.
    pub proof fn lemma_chunk_starts_ascend(&self, j: int, k: int)
        requires
            0 <= j <= k <= CHUNKS,
        ensures
            self.spec_chunk_start(j) <= self.spec_chunk_start(k),
    {
        let n = self.spec_pixel_count();
        assert(n >= 0) by (nonlinear_arith)
            requires
                n == self.hsize * self.vsize,
        ;
        assert(j * n <= k * n) by (nonlinear_arith)
            requires
                j <= k,
                n >= 0,
        ;
    }

    /// The chunks deal out the frame: every pixel lies in one chunk, at one
    /// place in it.
    pub proof fn lemma_chunks_partition(&self, x: int, y: int) -> (place: (int, int))
        requires
            0 <= x < self.hsize,
            0 <= y < self.vsize,
        ensures
            0 <= place.0 < CHUNKS,
            0 <= place.1 < self.spec_chunk(place.0).len(),
            self.spec_chunk(place.0)[place.1] == (x as usize, y as usize),
            forall|k: int, j: int|
                0 <= k < CHUNKS && 0 <= j < self.spec_chunk(k).len() && #[trigger] self.spec_chunk(
                    k,
                )[j] == (x as usize, y as usize) ==> k == place.0 && j == place.1,
    {
        let index = x * self.vsize + y;
        self.lemma_pixel_order(x, y);
        self.lemma_chunk_starts(0);
        let k = self.lemma_chunk_of(index, CHUNKS as int);
        let j = index - self.spec_chunk_start(k);
        assert forall|k2: int, j2: int|
            0 <= k2 < CHUNKS && 0 <= j2 < self.spec_chunk(k2).len() && #[trigger] self.spec_chunk(
                k2,
            )[j2] == (x as usize, y as usize) implies k2 == k && j2 == j by {
            let other = self.spec_chunk_start(k2) + j2;
            self.lemma_chunk_starts(k2);
            self.lemma_chunk_starts(k2 + 1);
            self.lemma_chunk_starts_ascend(k2, k2 + 1);
            assert(self.spec_chunk(k2)[j2] == self.spec_pixel(other));
            self.lemma_pixel(other);
            assert(other == index);
            if k2 < k {
                self.lemma_chunk_starts_ascend(k2 + 1, k);
            } else if k < k2 {
                self.lemma_chunk_starts_ascend(k + 1, k2);
            }
        }
        (k, j)
    }

    /// A pixel that is rendered before chunk `limit` begins lies in a chunk
    /// before it.
    proof fn lemma_chunk_of(&self, index: int, limit: int) -> (k: int)
        requires
            0 < limit <= CHUNKS,
            0 <= index < self.spec_chunk_start(limit),
        ensures
            0 <= k < limit,
            self.spec_chunk_start(k) <= index < self.spec_chunk_start(k + 1),
        decreases limit,
    {
        self.lemma_chunk_starts(0);
        if self.spec_chunk_start(limit - 1) <= index {
            limit - 1
        } else {
            self.lemma_chunk_of(index, limit - 1)
        }
    }
}

/// Where every pixel of a raster holds the colour that `colour` gives for
/// it, the raster is the frame of `colour`.
pub proof fn lemma_frame<T>(frame: Frame, colour: spec_fn(int, int) -> T, cells: Seq<T>)
    requires
        cells.len() == frame.spec_pixel_count(),
        forall|x: int, y: int|
            0 <= x < frame.hsize && 0 <= y < frame.vsize ==> cells[#[trigger] cell_index(
                frame.hsize as int,
                x,
                y,
            )] == colour(x, y),
    ensures
        cells == rendered(frame, colour),
{
    let w = frame.hsize as int;
    let h = frame.vsize as int;
    assert forall|i: int| 0 <= i < cells.len() implies cells[i] == rendered(frame, colour)[i] by {
        assert(w > 0) by (nonlinear_arith)
            requires
                0 <= i < w * h,
                w >= 0,
                h >= 0,
        ;
        vstd::arithmetic::div_mod::lemma_fundamental_div_mod(i, w);
        vstd::arithmetic::div_mod::lemma_mod_bound(i, w);
        vstd::arithmetic::div_mod::lemma_div_pos_is_pos(i, w);
        assert(i / w < h) by (nonlinear_arith)
            requires
                i == w * (i / w) + i % w,
                0 <= i % w < w,
                i < w * h,
                w > 0,
        ;
        assert(cell_index(w, i % w, i / w) == i);
    }
    assert(cells =~= rendered(frame, colour));
}

/// What a run of writes leaves in one cell: the raster keeps its size, and a
/// cell that some write names holds the colour of that pixel, as long as
/// every write carries the colour of the pixel it names.
pub proof fn lemma_written_cell<T>(
    frame: Frame,
    colour: spec_fn(int, int) -> T,
    cells: Seq<T>,
    writes: Seq<(usize, usize, T)>,
    x: int,
    y: int,
)
    requires
        cells.len() == frame.spec_pixel_count(),
        0 <= x < frame.hsize,
        0 <= y < frame.vsize,
        forall|i: int|
            0 <= i < writes.len() ==> {
                &&& (#[trigger] writes[i]).0 < frame.hsize
                &&& writes[i].1 < frame.vsize
                &&& writes[i].2 == colour(writes[i].0 as int, writes[i].1 as int)
            },
    ensures
        written(cells, frame.hsize as int, writes).len() == cells.len(),
        (exists|i: int| 0 <= i < writes.len() && (#[trigger] writes[i]).0 == x && writes[i].1 == y)
            ==> written(cells, frame.hsize as int, writes)[cell_index(frame.hsize as int, x, y)]
            == colour(x, y),
    decreases writes.len(),
{
    let w = frame.hsize as int;
    lemma_cell_index(w, frame.vsize as int, x, y);
    if writes.len() > 0 {
        let last = writes.last();
        let rest = writes.drop_last();
        assert forall|i: int| 0 <= i < rest.len() implies {
            &&& (#[trigger] rest[i]).0 < frame.hsize
            &&& rest[i].1 < frame.vsize
            &&& rest[i].2 == colour(rest[i].0 as int, rest[i].1 as int)
        } by {
            assert(rest[i] == writes[i]);
        }
        lemma_written_cell(frame, colour, cells, rest, x, y);
        lemma_cell_index(w, frame.vsize as int, last.0 as int, last.1 as int);
        if exists|i: int| 0 <= i < writes.len() && (#[trigger] writes[i]).0 == x && writes[i].1 == y {
            let i = choose|i: int| 0 <= i < writes.len() && (#[trigger] writes[i]).0 == x && writes[i].1 == y;
            if last.0 == x && last.1 == y {
            } else {
                assert(i < rest.len());
                assert(rest[i] == writes[i]);
                if cell_index(w, last.0 as int, last.1 as int) == cell_index(w, x, y) {
                    lemma_cell_index_injective(w, last.0 as int, last.1 as int, x, y);
                }
            }
        }
    }
}

/// Whether every report carries the colour that `colour` gives the pixel it
/// names.
pub open spec fn carry<T>(reports: Seq<(usize, usize, T)>, colour: spec_fn(int, int) -> T) -> bool {
    forall|i: int|
        0 <= i < reports.len() ==> (#[trigger] reports[i]).2 == colour(
            reports[i].0 as int,
            reports[i].1 as int,
        )
}

/// Whether some report is of pixel `pixel`.
pub open spec fn reported<T>(reports: Seq<(usize, usize, T)>, pixel: (usize, usize)) -> bool {
    exists|i: int|
        0 <= i < reports.len() && (#[trigger] reports[i]).0 == pixel.0 && reports[i].1 == pixel.1
}

/// Whether every worker has reported every pixel of its chunk.
pub open spec fn all_reported<T>(frame: Frame, reports: Seq<(usize, usize, T)>) -> bool {
    forall|k: int, j: int|
        0 <= k < CHUNKS && 0 <= j < frame.spec_chunk(k).len() ==> reported(
            reports,
            #[trigger] frame.spec_chunk(k)[j],
        )
}

/// A frame put together from the reports of the workers is the frame that
/// is rendered pixel after pixel: whatever the order in which the reports
/// come in, once every worker has reported every pixel of its chunk with
/// the colour of that pixel, the writes leave the frame of `colour`.
pub proof fn lemma_parallel_matches_sequential<T>(
    frame: Frame,
    colour: spec_fn(int, int) -> T,
    blank: Seq<T>,
    reports: Seq<(usize, usize, T)>,
)
    requires
        blank.len() == frame.spec_pixel_count(),
        forall|i: int|
            0 <= i < reports.len() ==> {
                &&& (#[trigger] reports[i]).0 < frame.hsize
                &&& reports[i].1 < frame.vsize
                &&& reports[i].2 == colour(reports[i].0 as int, reports[i].1 as int)
            },
        all_reported(frame, reports),
    ensures
        written(blank, frame.hsize as int, reports) == rendered(frame, colour),
{
    let w = frame.hsize as int;
    let out = written(blank, w, reports);
    assert forall|x: int, y: int| 0 <= x < frame.hsize && 0 <= y < frame.vsize implies out[#[trigger] cell_index(
        w,
        x,
        y,
    )] == colour(x, y) by {
        let place = frame.lemma_chunks_partition(x, y);
        assert(reported(reports, frame.spec_chunk(place.0)[place.1]));
        let i = choose|i: int|
            0 <= i < reports.len() && (#[trigger] reports[i]).0 == x && reports[i].1 == y;
        lemma_written_cell(frame, colour, blank, reports, x, y);
    }
    if frame.hsize > 0 && frame.vsize > 0 {
        lemma_written_cell(frame, colour, blank, reports, 0, 0);
    } else {
        assert(frame.spec_pixel_count() == 0) by (nonlinear_arith)
            requires
                frame.hsize == 0 || frame.vsize == 0,
                frame.spec_pixel_count() == frame.hsize * frame.vsize,
        ;
        if reports.len() > 0 {
            assert(reports[0].0 < frame.hsize && reports[0].1 < frame.vsize);
        }
    }
    lemma_frame(frame, colour, out);
}

/// The two ways of rendering give the same frame. Let `sequential` be what
/// `render` returns for `colour_at`, and let `reports` be what the workers
/// report from `render_chunk`, every chunk in full, in whatever order the
/// reports come in. If `colour_at` gives a pixel one colour only, the
/// writes of the reports onto a blank raster leave the cells of
/// `sequential`.
pub proof fn lemma_render_modes_agree<T, F: Fn(usize, usize) -> T>(
    frame: Frame,
    colour_at: F,
    sequential: Canvas<T>,
    blank: Seq<T>,
    reports: Seq<(usize, usize, T)>,
)
    requires
        forall|x: usize, y: usize, a: T, b: T|
            call_ensures(colour_at, (x, y), a) && call_ensures(colour_at, (x, y), b) ==> a == b,
        sequential.spec_width() == frame.hsize,
        sequential.spec_height() == frame.vsize,
        sequential.wf(),
        forall|x: usize, y: usize|
            x < frame.hsize && y < frame.vsize ==> call_ensures(
                colour_at,
                (x, y),
                #[trigger] sequential.spec_index(x as int, y as int),
            ),
        blank.len() == frame.spec_pixel_count(),
        forall|i: int|
            0 <= i < reports.len() ==> {
                &&& (#[trigger] reports[i]).0 < frame.hsize
                &&& reports[i].1 < frame.vsize
                &&& call_ensures(colour_at, (reports[i].0, reports[i].1), reports[i].2)
            },
        all_reported(frame, reports),
    ensures
        written(blank, frame.hsize as int, reports) == sequential@,
{
    let colour = |x: int, y: int| sequential.spec_index(x, y);
    assert forall|i: int| 0 <= i < reports.len() implies (#[trigger] reports[i]).2 == colour(
        reports[i].0 as int,
        reports[i].1 as int,
    ) by {
        let (x, y) = (reports[i].0, reports[i].1);
        assert(call_ensures(colour_at, (x, y), sequential.spec_index(x as int, y as int)));
    }
    lemma_parallel_matches_sequential(frame, colour, blank, reports);
    lemma_frame(frame, colour, sequential@);
}

/// A camera: a frame of pixels, how wide the eye looks, and where it is.
pub struct Camera {
    /// The number of columns of the frame.
    pub hsize: usize,
    /// The number of rows of the frame.
    pub vsize: usize,
    /// The angle of the field of view.
    pub fov: u64,
    /// The transform from the space of the world to the space of the eye.
    pub transform: Matrix<u64>,
    /// Half the width of the view plane, one unit before the eye.
    pub half_width: u64,
    /// Half the height of the view plane.
    pub half_height: u64,
    /// The size of a pixel on the view plane.
    pub pixel_size: u64,
    /// The inverse of the transform, worked out once.
    pub inverse_transform: Matrix<u64>,
}

/// Half the extent of the view plane along its longer side: the tangent of
/// half the field of view.
pub open spec fn half_view<A: Arithmetic<u64>>(arith: &A, fov: u64) -> u64 {
    tangent(arith, quotient(arith, fov, TWO))
}

/// The width of the frame over its height.
pub open spec fn aspect_ratio<A: Arithmetic<u64>>(arith: &A, hsize: usize, vsize: usize) -> u64 {
    quotient(arith, counted(arith, hsize), counted(arith, vsize))
}

/// Half the width of the view plane: the half view where the frame is at
/// least as wide as it is high, else the half view times the aspect ratio.
pub open spec fn half_width_of<A: Arithmetic<u64>>(
    arith: &A,
    hsize: usize,
    vsize: usize,
    fov: u64,
) -> u64 {
    if spec_at_most(ONE, aspect_ratio(arith, hsize, vsize)) {
        half_view(arith, fov)
    } else {
        product(arith, half_view(arith, fov), aspect_ratio(arith, hsize, vsize))
    }
}

/// Half the height of the view plane: the half view over the aspect ratio
/// where the frame is at least as wide as it is high, else the half view.
pub open spec fn half_height_of<A: Arithmetic<u64>>(
    arith: &A,
    hsize: usize,
    vsize: usize,
    fov: u64,
) -> u64 {
    if spec_at_most(ONE, aspect_ratio(arith, hsize, vsize)) {
        quotient(arith, half_view(arith, fov), aspect_ratio(arith, hsize, vsize))
    } else {
        half_view(arith, fov)
    }
}

/// The size of a pixel: the width of the view plane over the number of
/// columns.
pub open spec fn pixel_size_of<A: Arithmetic<u64>>(
    arith: &A,
    hsize: usize,
    vsize: usize,
    fov: u64,
) -> u64 {
    quotient(
        arith,
        product(arith, half_width_of(arith, hsize, vsize, fov), TWO),
        counted(arith, hsize),
    )
}

/// The ray from the eye through the middle of pixel `(x, y)`, where there
/// is one. Pixel `(0, 0)` lies in the corner of the view plane where x and
/// y are greatest; the view plane lies one unit before the eye, at z minus
/// one.
pub open spec fn pixel_ray<A: Arithmetic<u64>>(arith: &A, camera: Camera, x: usize, y: usize) -> Option<Ray> {
    let xoffset = product(arith, sum(arith, counted(arith, x), HALF), camera.pixel_size);
    let yoffset = product(arith, sum(arith, counted(arith, y), HALF), camera.pixel_size);
    let world_x = difference(arith, camera.half_width, xoffset);
    let world_y = difference(arith, camera.half_height, yoffset);
    let pixel = image_of(
        arith,
        camera.inverse_transform,
        Tuple { x: world_x, y: world_y, z: MINUS_ONE, w: ONE },
    );
    let origin = image_of(
        arith,
        camera.inverse_transform,
        Tuple { x: ZERO, y: ZERO, z: ZERO, w: ONE },
    );
    let direction = normalized(arith, tuple_difference(arith, pixel, origin));
    if spec_is_point(origin.w) && spec_is_vector(direction.w) {
        Some(Ray { origin, direction })
    } else {
        None
    }
}

impl Camera {
    /// The frame of the camera.
    pub open spec fn spec_frame(&self) -> Frame {
        Frame { hsize: self.hsize, vsize: self.vsize }
    }

    /// Whether `ray` can be the ray through pixel `(x, y)`.
    pub open spec fn is_ray<A: Arithmetic<u64>>(
        &self,
        arith: &A,
        x: usize,
        y: usize,
        ray: Result<Ray, SceneError>,
    ) -> bool {
        &&& ray matches Ok(r) ==> r.wf()
        &&& ray matches Err(e) ==> e == SceneError::NotARay
        &&& functional(arith) ==> match pixel_ray(arith, *self, x, y) {
            Some(r) => ray == Ok::<Ray, SceneError>(r),
            None => ray is Err,
        }
    }

    /// Whether the scene holds the light that rendering needs: it holds a
    /// light, or no ray through a pixel hits anything.
    pub open spec fn lit<A: Arithmetic<u64>, S: Shape<A>, L: Light>(
        &self,
        world: &World<S, L>,
        arith: &A,
    ) -> bool {
        world.light.len() > 0 || forall|x: usize, y: usize, r: Ray|
            x < self.hsize && y < self.vsize && #[trigger] self.is_ray(
                arith,
                x,
                y,
                Ok::<Ray, SceneError>(r),
            ) ==> world.sees_nothing(arith, r)
    }

    /// Whether `colour` can be the colour of pixel `(x, y)`: what the ray
    /// through the pixel sees in the scene.
    pub open spec fn is_pixel<A: Arithmetic<u64>, S: Shape<A>, L: Light>(
        &self,
        world: &World<S, L>,
        arith: &A,
        x: usize,
        y: usize,
        colour: Result<Colour, SceneError>,
    ) -> bool {
        exists|ray: Result<Ray, SceneError>| #[trigger]
            self.is_ray(arith, x, y, ray) && match ray {
                Err(e) => colour == Err::<Colour, SceneError>(e),
                Ok(r) => world.is_seen(arith, r, colour),
            }
    }

    /// Whether `camera` can be what comes of making a camera with the given
    /// frame, field of view and transform, where it is not known beforehand
    /// whether the transform has an inverse: a camera wherever the
    /// transform can be inverted, with that transform and an inverse of it,
    /// and else the error that says that the arithmetic found none.
    pub open spec fn is_made<A: Arithmetic<u64>>(
        arith: &A,
        hsize: usize,
        vsize: usize,
        fov: u64,
        transform: Matrix<u64>,
        camera: Result<Self, SceneError>,
    ) -> bool {
        &&& invertible(arith, transform) ==> camera is Ok
        &&& match camera {
            Err(e) => e == SceneError::NotInvertible && is_inverse(arith, transform, None),
            Ok(c) => {
                &&& c.hsize == hsize
                &&& c.vsize == vsize
                &&& c.fov == fov
                &&& c.transform == transform
                &&& is_inverse(arith, transform, Some(c.inverse_transform))
                &&& c.inverse_transform.spec_width() == 4
                &&& c.inverse_transform.spec_height() == 4
                &&& functional(arith) ==> {
                    &&& c.half_width == half_width_of(arith, hsize, vsize, fov)
                    &&& c.half_height == half_height_of(arith, hsize, vsize, fov)
                    &&& c.pixel_size == pixel_size_of(arith, hsize, vsize, fov)
                }
            },
        }
    }

    /// The camera with the given frame, field of view, transform and
    /// inverse of the transform: the sizes of the view plane are worked out
    /// here.
    fn build<A: Arithmetic<u64>>(
        hsize: usize,
        vsize: usize,
        fov: u64,
        transform: Matrix<u64>,
        inverse_transform: Matrix<u64>,
        arith: &A,
    ) -> (c: Self)
        ensures
            c.hsize == hsize,
            c.vsize == vsize,
            c.fov == fov,
            c.transform == transform,
            c.inverse_transform == inverse_transform,
            functional(arith) ==> {
                &&& c.half_width == half_width_of(arith, hsize, vsize, fov)
                &&& c.half_height == half_height_of(arith, hsize, vsize, fov)
                &&& c.pixel_size == pixel_size_of(arith, hsize, vsize, fov)
            },
    {
        let half_view = arith.tan(arith.over(fov, TWO));
        let aspect_ratio = arith.over(arith.count(hsize), arith.count(vsize));
        let half_width: u64;
        let half_height: u64;

        if at_least(aspect_ratio, ONE) {
            half_width = half_view;
            half_height = arith.over(half_view, aspect_ratio);
        } else {
            half_width = arith.times(half_view, aspect_ratio);
            half_height = half_view;
        }
        let pixel_size = arith.over(arith.times(half_width, TWO), arith.count(hsize));

        Self {
            hsize,
            vsize,
            fov,
            half_width,
            half_height,
            pixel_size,
            inverse_transform,
            transform,
        }
    }

    /// The camera with the given frame and field of view, looking through
    /// the given transform. The sizes of the view plane and the inverse of
    /// the transform are worked out once, here. The transform has to have
    /// an inverse.
    pub fn new_with_transform<A: Arithmetic<u64>>(
        hsize: usize,
        vsize: usize,
        fov: u64,
        transform: Matrix<u64>,
        arith: &A,
    ) -> (c: Self)
        requires
            transform.spec_width() == 4,
            transform.spec_height() == 4,
            invertible(arith, transform),
        ensures
            c.hsize == hsize,
            c.vsize == vsize,
            c.fov == fov,
            c.transform == transform,
            is_inverse(arith, transform, Some(c.inverse_transform)),
            c.inverse_transform.spec_width() == 4,
            c.inverse_transform.spec_height() == 4,
            functional(arith) ==> {
                &&& c.half_width == half_width_of(arith, hsize, vsize, fov)
                &&& c.half_height == half_height_of(arith, hsize, vsize, fov)
                &&& c.pixel_size == pixel_size_of(arith, hsize, vsize, fov)
            },
    {
        let inverse_transform = transform.inverted(arith);
        Self::build(hsize, vsize, fov, transform, inverse_transform, arith)
    }

    /// The camera with the given frame and field of view at the origin of
    /// the world, looking down the negative z axis: its transform is the
    /// identity. There is no camera where the arithmetic finds no inverse
    /// of the identity.
    pub fn new<A: Arithmetic<u64>>(hsize: usize, vsize: usize, fov: u64, arith: &A) -> (camera: Result<
        Self,
        SceneError,
    >)
        ensures
            exists|identity: Matrix<u64>|
                {
                    &&& identity@ == spec_identity(ZERO, ONE)
                    &&& identity.spec_width() == 4
                    &&& identity.spec_height() == 4
                    &&& #[trigger] Self::is_made(arith, hsize, vsize, fov, identity, camera)
                },
    {
        let identity = Matrix::identity();
        let inverse = identity.inverse(arith);
        let ghost shown = identity;
        let camera = match inverse {
            None => Err(SceneError::NotInvertible),
            Some(inverse_transform) => Ok(
                Self::build(hsize, vsize, fov, identity, inverse_transform, arith),
            ),
        };
        proof {
            assert(is_inverse(arith, shown, inverse));
            assert(Self::is_made(arith, hsize, vsize, fov, shown, camera));
        }
        camera
    }

    /// The frame of the camera.
    pub fn frame(&self) -> (frame: Frame)
        ensures
            frame == self.spec_frame(),
    {
        Frame { hsize: self.hsize, vsize: self.vsize }
    }

    /// The ray from the eye through the middle of pixel `(x, y)`.
    pub fn ray_for_pixel<A: Arithmetic<u64>>(&self, x: usize, y: usize, arith: &A) -> (ray: Result<
        Ray,
        SceneError,
    >)
        requires
            self.inverse_transform.spec_height() == 4,
        ensures
            self.is_ray(arith, x, y, ray),
    {
        // The offset from the corner of the view plane to the middle of the pixel.
        let xoffset = arith.times(arith.plus(arith.count(x), HALF), self.pixel_size);
        let yoffset = arith.times(arith.plus(arith.count(y), HALF), self.pixel_size);

        let world_x = arith.minus(self.half_width, xoffset);
        let world_y = arith.minus(self.half_height, yoffset);

        let pixel = self.inverse_transform.mul_tuple(
            &Tuple::point(world_x, world_y, MINUS_ONE),
            arith,
        );
        let origin = self.inverse_transform.mul_tuple(&Tuple::point(ZERO, ZERO, ZERO), arith);
        let direction = pixel.sub(&origin, arith).normalize(arith);

        if origin.is_point() && direction.is_vector() {
            Ok(Ray::new(origin, direction))
        } else {
            Err(SceneError::NotARay)
        }
    }

    /// Renders the scene: every pixel gets the colour that the ray through
    /// it sees. The pixels are visited column after column; the first
    /// pixel that cannot be rendered ends the rendering with its error. A
    /// scene in which a ray through a pixel hits something has to hold a
    /// light.
    pub fn render<A: Arithmetic<u64>, S: Shape<A>, L: Light>(
        &self,
        world: &World<S, L>,
        arith: &A,
    ) -> (image: Result<Canvas<Colour>, SceneError>)
        requires
            self.spec_frame().countable(),
            self.inverse_transform.spec_height() == 4,
            world.ready(arith),
            self.lit(world, arith),
        ensures
            match image {
                Ok(canvas) => {
                    &&& canvas.spec_width() == self.hsize
                    &&& canvas.spec_height() == self.vsize
                    &&& canvas.wf()
                    &&& forall|x: usize, y: usize|
                        x < self.hsize && y < self.vsize ==> self.is_pixel(
                            world,
                            arith,
                            x,
                            y,
                            Ok::<Colour, SceneError>(#[trigger] canvas.spec_index(x as int, y as int)),
                        )
                },
                Err(e) => exists|x: usize, y: usize|
                    x < self.hsize && y < self.vsize && #[trigger] self.is_pixel(
                        world,
                        arith,
                        x,
                        y,
                        Err::<Colour, SceneError>(e),
                    ),
            },
    {
        let mut canvas = Canvas::new_with_colour(self.hsize, self.vsize, Colour::black());
        let mut x: usize = 0;
        while x < self.hsize
            invariant
                x <= self.hsize,
                self.inverse_transform.spec_height() == 4,
                world.ready(arith),
                self.lit(world, arith),
                canvas.spec_width() == self.hsize,
                canvas.spec_height() == self.vsize,
                canvas.wf(),
                forall|px: usize, py: usize|
                    px < x && py < self.vsize ==> self.is_pixel(
                        world,
                        arith,
                        px,
                        py,
                        Ok::<Colour, SceneError>(#[trigger] canvas.spec_index(px as int, py as int)),
                    ),
            decreases self.hsize - x,
        {
            let mut y: usize = 0;
            while y < self.vsize
                invariant
                    x < self.hsize,
                    y <= self.vsize,
                    self.inverse_transform.spec_height() == 4,
                    world.ready(arith),
                    self.lit(world, arith),
                    canvas.spec_width() == self.hsize,
                    canvas.spec_height() == self.vsize,
                    canvas.wf(),
                    forall|px: usize, py: usize|
                        (px < x && py < self.vsize) || (px == x && py < y) ==> self.is_pixel(
                            world,
                            arith,
                            px,
                            py,
                            Ok::<Colour, SceneError>(
                                #[trigger] canvas.spec_index(px as int, py as int),
                            ),
                        ),
                decreases self.vsize - y,
            {
                let ray = self.ray_for_pixel(x, y, arith);
                let seen = match ray {
                    Err(e) => Err(e),
                    Ok(r) => world.colour_at(r, arith),
                };
                proof {
                    assert(self.is_ray(arith, x, y, ray));
                    assert(self.is_pixel(world, arith, x, y, seen));
                }
                let colour = match seen {
                    Err(e) => {
                        return Err(e);
                    },
                    Ok(colour) => colour,
                };
                let ghost before = canvas;
                canvas.set(x, y, colour);
                proof {
                    let w = self.hsize as int;
                    lemma_cell_index(w, self.vsize as int, x as int, y as int);
                    assert forall|px: usize, py: usize|
                        (px < x && py < self.vsize) || (px == x && py < y + 1) implies self.is_pixel(
                        world,
                        arith,
                        px,
                        py,
                        Ok::<Colour, SceneError>(#[trigger] canvas.spec_index(px as int, py as int)),
                    ) by {
                        lemma_cell_index(w, self.vsize as int, px as int, py as int);
                        if px == x && py == y {
                        } else {
                            if cell_index(w, px as int, py as int) == cell_index(w, x as int, y as int) {
                                lemma_cell_index_injective(w, px as int, py as int, x as int, y as int);
                            }
                            assert(canvas.spec_index(px as int, py as int) == before.spec_index(
                                px as int,
                                py as int,
                            ));
                        }
                    }
                }
                y += 1;
            }
            x += 1;
        }
        Ok(canvas)
    }
}

/// Rendering a scene with workers gives the frame that rendering it pixel
/// after pixel gives. Let `sequential` be what [`Camera::render`] returns,
/// and let `reports` be what the workers report, every chunk in full, in
/// whatever order the reports come in, each report the colour that the ray
/// through its pixel sees. If a pixel can be seen in one colour only, the
/// writes of the reports onto a blank raster leave the cells of
/// `sequential`.
pub proof fn lemma_parallel_render_agrees<A: Arithmetic<u64>, S: Shape<A>, L: Light>(
    camera: Camera,
    world: &World<S, L>,
    arith: &A,
    sequential: Canvas<Colour>,
    blank: Seq<Colour>,
    reports: Seq<(usize, usize, Colour)>,
)
    requires
        forall|x: usize, y: usize, a: Colour, b: Colour|
            camera.is_pixel(world, arith, x, y, Ok::<Colour, SceneError>(a)) && camera.is_pixel(
                world,
                arith,
                x,
                y,
                Ok::<Colour, SceneError>(b),
            ) ==> a == b,
        sequential.spec_width() == camera.hsize,
        sequential.spec_height() == camera.vsize,
        sequential.wf(),
        forall|x: usize, y: usize|
            x < camera.hsize && y < camera.vsize ==> camera.is_pixel(
                world,
                arith,
                x,
                y,
                Ok::<Colour, SceneError>(#[trigger] sequential.spec_index(x as int, y as int)),
            ),
        blank.len() == camera.spec_frame().spec_pixel_count(),
        forall|i: int|
            0 <= i < reports.len() ==> {
                &&& (#[trigger] reports[i]).0 < camera.hsize
                &&& reports[i].1 < camera.vsize
                &&& camera.is_pixel(
                    world,
                    arith,
                    reports[i].0,
                    reports[i].1,
                    Ok::<Colour, SceneError>(reports[i].2),
                )
            },
        all_reported(camera.spec_frame(), reports),
    ensures
        written(blank, camera.hsize as int, reports) == sequential@,
{
    let colour = |x: int, y: int| sequential.spec_index(x, y);
    let frame = camera.spec_frame();
    assert forall|i: int| 0 <= i < reports.len() implies (#[trigger] reports[i]).2 == colour(
        reports[i].0 as int,
        reports[i].1 as int,
    ) by {
        let (x, y) = (reports[i].0, reports[i].1);
        assert(camera.is_pixel(
            world,
            arith,
            x,
            y,
            Ok::<Colour, SceneError>(sequential.spec_index(x as int, y as int)),
        ));
    }
    lemma_parallel_matches_sequential(frame, colour, blank, reports);
    lemma_frame(frame, colour, sequential@);
}

} // verus!
