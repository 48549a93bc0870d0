//! A raster: a rectangle of cells addressed by column and row.
use crate::colour::{samples_of, Colour};
use crate::math::arithmetic::{functional, Arithmetic};
use crate::math::layout::{cell_index, lemma_cell_index};
use crate::ppm::{ppm_text, text};
use vstd::prelude::*;

verus! {

/// The cells after the writes have been made one after the other, each
/// `(x, y, value)` putting `value` into cell `(x, y)`.
pub open spec fn written<T>(cells: Seq<T>, width: int, writes: Seq<(usize, usize, T)>) -> Seq<T>
    decreases writes.len(),
{
    if writes.len() == 0 {
        cells
    } else {
        let w = writes.last();
        written(cells, width, writes.drop_last()).update(
            cell_index(width, w.0 as int, w.1 as int),
            w.2,
        )
    }
}

/// A raster of `width × height` cells, stored row after row.
#[derive(Debug, PartialEq)]
pub struct Canvas<T> {
    width: usize,
    height: usize,
    data: Vec<T>,
}

impl<T> View for Canvas<T> {
    type V = Seq<T>;

    /// The cells, row after row, each row from left to right.
    closed spec fn view(&self) -> Seq<T> {
        self.data@
    }
}

impl<T> Canvas<T> {
    /// Kept by every raster: it holds as many cells as its width and height
    /// say.
    #[verifier::type_invariant]
    spec fn all_cells_stored(self) -> bool {
        self.data.len() == self.width * self.height
    }

    /// The number of columns.
    pub closed spec fn spec_width(&self) -> int {
        self.width as int
    }

    /// The number of rows.
    pub closed spec fn spec_height(&self) -> int {
        self.height as int
    }

    /// Cell `(x, y)`: column `x` of row `y`.
    pub open spec fn spec_index(&self, x: int, y: int) -> T {
        self@[cell_index(self.spec_width(), x, y)]
    }

    /// Whether the raster holds every one of its cells.
    pub open spec fn wf(&self) -> bool {
        self@.len() == self.spec_width() * self.spec_height()
    }

    /// The number of columns.
    pub fn width(&self) -> (w: usize)
        ensures
            w == self.spec_width(),
    {
        self.width
    }

    /// The number of rows.
    pub fn height(&self) -> (h: usize)
        ensures
            h == self.spec_height(),
    {
        self.height
    }

    /// The place of cell `(x, y)` in a raster `width` wide.
    fn make_index(width: usize, x: usize, y: usize) -> (i: usize)
        requires
            width * y + x <= usize::MAX,
        ensures
            i == cell_index(width as int, x as int, y as int),
    {
        assert(width * y <= width * y + x) by (nonlinear_arith)
            requires
                x >= 0,
        ;
        (width * y) + x
    }

    /// The cells, row after row.
    pub fn vec(&self) -> (cells: &Vec<T>)
        ensures
            cells@ == self@,
            self.wf(),
    {
        proof {
            use_type_invariant(self);
        }
        &self.data
    }

    /// Puts `value` into cell `(x, y)`. No other cell changes.
    pub fn set(&mut self, x: usize, y: usize, value: T)
        requires
            x < old(self).spec_width(),
            y < old(self).spec_height(),
        ensures
            final(self).spec_width() == old(self).spec_width(),
            final(self).spec_height() == old(self).spec_height(),
            final(self)@ == old(self)@.update(
                cell_index(old(self).spec_width(), x as int, y as int),
                value,
            ),
            final(self).wf(),
    {
        proof {
            use_type_invariant(&*self);
            lemma_cell_index(self.width as int, self.height as int, x as int, y as int);
        }
        let i = Self::make_index(self.width, x, y);
        self.data[i] = value;
    }
}

impl<T: Copy> Canvas<T> {
    /// A raster with `base_colour` in every cell.
    pub fn new_with_colour(width: usize, height: usize, base_colour: T) -> (canvas: Self)
        requires
            width * height <= usize::MAX,
        ensures
            canvas.spec_width() == width,
            canvas.spec_height() == height,
            canvas@ == Seq::new((width * height) as nat, |i: int| base_colour),
            canvas.wf(),
    {
        let n: usize = width * height;
        let mut data: Vec<T> = Vec::new();
        let mut i: usize = 0;
        while i < n
            invariant
                i <= n,
                data.len() == i,
                forall|j: int| 0 <= j < i ==> data@[j] == base_colour,
            decreases n - i,
        {
            data.push(base_colour);
            i += 1;
        }
        proof {
            assert(data@ =~= Seq::new((width * height) as nat, |i: int| base_colour));
        }
        Canvas { width, height, data }
    }

    /// A raster with the default value of the cell type in every cell.
    pub fn new(width: usize, height: usize) -> (canvas: Self) where T: Default
        requires
            width * height <= usize::MAX,
        ensures
            canvas.spec_width() == width,
            canvas.spec_height() == height,
            canvas.wf(),
            exists|base: T|
                call_ensures(T::default, (), base) && canvas@ == Seq::new(
                    (width * height) as nat,
                    |i: int| base,
                ),
    {
        let base = T::default();
        let canvas = Self::new_with_colour(width, height, base);
        proof {
            assert(call_ensures(T::default, (), base) && canvas@ == Seq::new(
                (width * height) as nat,
                |i: int| base,
            ));
        }
        canvas
    }

    /// Makes the writes one after the other, each `(x, y, value)` putting
    /// `value` into cell `(x, y)`. Where a cell is written twice the later
    /// write stands.
    pub fn write_all(&mut self, writes: &Vec<(usize, usize, T)>)
        requires
            forall|i: int|
                0 <= i < writes.len() ==> (#[trigger] writes[i]).0 < old(self).spec_width()
                    && writes[i].1 < old(self).spec_height(),
        ensures
            final(self).spec_width() == old(self).spec_width(),
            final(self).spec_height() == old(self).spec_height(),
            final(self)@ == written(old(self)@, old(self).spec_width(), writes@),
            final(self).wf(),
    {
        proof {
            use_type_invariant(&*self);
            assert(writes@.take(0) =~= Seq::<(usize, usize, T)>::empty());
        }
        let ghost width = self.spec_width();
        let ghost height = self.spec_height();
        let ghost start = self@;
        let mut k: usize = 0;
        while k < writes.len()
            invariant
                k <= writes.len(),
                forall|i: int|
                    0 <= i < writes.len() ==> (#[trigger] writes[i]).0 < width && writes[i].1
                        < height,
                self.spec_width() == width,
                self.spec_height() == height,
                self.wf(),
                self@ == written(start, width, writes@.take(k as int)),
            decreases writes.len() - k,
        {
            let w = writes[k];
            proof {
                let next = writes@.take(k + 1);
                assert(next.drop_last() =~= writes@.take(k as int));
                assert(next.last() == w);
            }
            self.set(w.0, w.1, w.2);
            k += 1;
        }
        proof {
            assert(writes@.take(writes.len() as int) =~= writes@);
        }
    }

    /// The cells, row after row, as a list of their own.
    pub fn iter(&self) -> (cells: Vec<T>)
        ensures
            cells@ == self@,
    {
        let mut cells: Vec<T> = Vec::new();
        let mut i: usize = 0;
        while i < self.data.len()
            invariant
                i <= self.data.len(),
                cells@ == self.data@.take(i as int),
            decreases self.data.len() - i,
        {
            cells.push(self.data[i]);
            proof {
                assert(self.data@.take(i + 1) =~= self.data@.take(i as int).push(self.data@[i as int]));
            }
            i += 1;
        }
        proof {
            assert(self.data@.take(self.data.len() as int) =~= self.data@);
        }
        cells
    }
}

impl<T: Clone> Clone for Canvas<T> {
    /// A raster of the same size whose cells are clones of the cells.
    fn clone(&self) -> (copy: Self)
        ensures
            copy.spec_width() == self.spec_width(),
            copy.spec_height() == self.spec_height(),
            copy@.len() == self@.len(),
            forall|i: int| 0 <= i < self@.len() ==> cloned(#[trigger] self@[i], copy@[i]),
    {
        proof {
            use_type_invariant(self);
        }
        Canvas { width: self.width, height: self.height, data: self.data.clone() }
    }
}

impl<T> core::ops::Index<(usize, usize)> for Canvas<T> {
    type Output = T;

    /// Cell `(x, y)`.
    fn index(&self, index: (usize, usize)) -> (cell: &T)
        ensures
            *cell == self.spec_index(index.0 as int, index.1 as int),
    {
        proof {
            use_type_invariant(self);
            lemma_cell_index(self.width as int, self.height as int, index.0 as int, index.1 as int);
        }
        &self.data[Self::make_index(self.width, index.0, index.1)]
    }
}

impl<T> vstd::std_specs::core::IndexSpecImpl<(usize, usize)> for Canvas<T> {
    /// A cell can be read where its column and its row are on the raster.
    open spec fn index_req(&self, index: &(usize, usize)) -> bool {
        index.0 < self.spec_width() && index.1 < self.spec_height()
    }
}

/// The samples of the colours, three to a colour, colour after colour.
pub open spec fn samples_of_all<A: Arithmetic<u64>>(arith: &A, cells: Seq<Colour>) -> Seq<u8> {
    Seq::new(
        3 * cells.len(),
        |i: int|
            if i % 3 == 0 {
                samples_of(arith, cells[i / 3]).0
            } else if i % 3 == 1 {
                samples_of(arith, cells[i / 3]).1
            } else {
                samples_of(arith, cells[i / 3]).2
            },
    )
}

impl Canvas<Colour> {
    /// The raster of colours as plain text.
    pub fn into_ppm<A: Arithmetic<u64>>(&self, arith: &A) -> (out: String)
        ensures
            functional(arith) ==> out@ == ppm_text(
                self.spec_width() as nat,
                self.spec_height() as nat,
                samples_of_all(arith, self@),
            ),
    {
        proof {
            use_type_invariant(self);
        }
        let mut samples: Vec<u8> = Vec::new();
        let mut i: usize = 0;
        while i < self.data.len()
            invariant
                i <= self.data.len(),
                samples.len() == 3 * i,
                functional(arith) ==> forall|j: int|
                    0 <= j < 3 * i ==> #[trigger] samples@[j] == samples_of_all(arith, self@)[j],
            decreases self.data.len() - i,
        {
            let (red, green, blue) = self.data[i].to_rgb(arith);
            samples.push(red);
            samples.push(green);
            samples.push(blue);
            i += 1;
        }
        proof {
            assert(3 * self.width * self.height == 3 * (self.width * self.height))
                by (nonlinear_arith);
            if functional(arith) {
                assert(samples@ =~= samples_of_all(arith, self@));
            }
        }
        text(self.width, self.height, &samples)
    }
}

} // verus!
