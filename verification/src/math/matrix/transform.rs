//! The matrices of the affine transforms: which entry of a four by four
//! matrix holds which coefficient.
//!
//! Every transform is the identity matrix with some entries replaced. The
//! entries are of any type, so the caller says what stands for zero and for
//! one, and hands in the coefficients: the offsets of a translation, the
//! factors of a scaling, the sine and cosine of a rotation, the proportions
//! of a shearing.
use super::algebra::product_with;
use super::Matrix;
use crate::math::arithmetic::{cosine, functional, sine, whole, Arithmetic};
use crate::math::float::{negate, spec_equal, spec_negate, ONE, ZERO};
use crate::math::layout::cell_index;
use crate::math::tuple::{cross_product, normalized, tuple_difference, Tuple};
use vstd::prelude::*;

verus! {

/// The entries of the identity matrix of four rows and columns, where `one`
/// stands on the diagonal and `zero` elsewhere.
pub open spec fn spec_identity<T>(zero: T, one: T) -> Seq<T> {
    Seq::new(
        16,
        |i: int|
            if i / 4 == i % 4 {
                one
            } else {
                zero
            },
    )
}

/// The entries of a four by four matrix with the one in row `row` and
/// column `col` replaced by `value`.
pub open spec fn with_entry<T>(entries: Seq<T>, row: int, col: int, value: T) -> Seq<T> {
    entries.update(cell_index(4, col, row), value)
}

impl<T: Copy> Matrix<T> {
    /// The identity matrix of four rows and columns.
    pub fn identity_of(zero: T, one: T) -> (m: Self)
        ensures
            m.spec_width() == 4,
            m.spec_height() == 4,
            m.wf(),
            m@ == spec_identity(zero, one),
    {
        let mut data: Vec<T> = Vec::new();
        data.push(one);
        data.push(zero);
        data.push(zero);
        data.push(zero);
        data.push(zero);
        data.push(one);
        data.push(zero);
        data.push(zero);
        data.push(zero);
        data.push(zero);
        data.push(one);
        data.push(zero);
        data.push(zero);
        data.push(zero);
        data.push(zero);
        data.push(one);
        proof {
            assert(data@ =~= spec_identity(zero, one));
        }
        Matrix::new_with_data(4, 4, data)
    }

    /// The translation by `(x, y, z)`: the offsets stand in the last column.
    pub fn translation_of(zero: T, one: T, x: T, y: T, z: T) -> (m: Self)
        ensures
            m.spec_width() == 4,
            m.spec_height() == 4,
            m.wf(),
            m@ == with_entry(with_entry(with_entry(spec_identity(zero, one), 0, 3, x), 1, 3, y), 2, 3, z),
    {
        let mut base = Self::identity_of(zero, one);
        base.set(0, 3, x);
        base.set(1, 3, y);
        base.set(2, 3, z);
        base
    }

    /// The scaling by `(x, y, z)`: the factors stand on the diagonal.
    pub fn scaling_of(zero: T, one: T, x: T, y: T, z: T) -> (m: Self)
        ensures
            m.spec_width() == 4,
            m.spec_height() == 4,
            m.wf(),
            m@ == with_entry(with_entry(with_entry(spec_identity(zero, one), 0, 0, x), 1, 1, y), 2, 2, z),
    {
        let mut base = Self::identity_of(zero, one);
        base.set(0, 0, x);
        base.set(1, 1, y);
        base.set(2, 2, z);
        base
    }

    /// The rotation about the x axis by the angle whose sine is `sin` and
    /// whose cosine is `cos`; `minus_sin` is the sine negated.
    pub fn rotation_x_of(zero: T, one: T, sin: T, cos: T, minus_sin: T) -> (m: Self)
        ensures
            m.spec_width() == 4,
            m.spec_height() == 4,
            m.wf(),
            m@ == with_entry(
                with_entry(
                    with_entry(with_entry(spec_identity(zero, one), 1, 1, cos), 1, 2, minus_sin),
                    2,
                    1,
                    sin,
                ),
                2,
                2,
                cos,
            ),
    {
        let mut out = Self::identity_of(zero, one);
        out.set(1, 1, cos);
        out.set(1, 2, minus_sin);
        out.set(2, 1, sin);
        out.set(2, 2, cos);
        out
    }

    /// The rotation about the y axis by the angle whose sine is `sin` and
    /// whose cosine is `cos`; `minus_sin` is the sine negated.
    pub fn rotation_y_of(zero: T, one: T, sin: T, cos: T, minus_sin: T) -> (m: Self)
        ensures
            m.spec_width() == 4,
            m.spec_height() == 4,
            m.wf(),
            m@ == with_entry(
                with_entry(
                    with_entry(with_entry(spec_identity(zero, one), 0, 0, cos), 0, 2, sin),
                    2,
                    0,
                    minus_sin,
                ),
                2,
                2,
                cos,
            ),
    {
        let mut out = Self::identity_of(zero, one);
        out.set(0, 0, cos);
        out.set(0, 2, sin);
        out.set(2, 0, minus_sin);
        out.set(2, 2, cos);
        out
    }

    /// The rotation about the z axis by the angle whose sine is `sin` and
    /// whose cosine is `cos`; `minus_sin` is the sine negated.
    pub fn rotatation_z_of(zero: T, one: T, sin: T, cos: T, minus_sin: T) -> (m: Self)
        ensures
            m.spec_width() == 4,
            m.spec_height() == 4,
            m.wf(),
            m@ == with_entry(
                with_entry(
                    with_entry(with_entry(spec_identity(zero, one), 0, 0, cos), 0, 1, minus_sin),
                    1,
                    0,
                    sin,
                ),
                1,
                1,
                cos,
            ),
    {
        let mut out = Self::identity_of(zero, one);
        out.set(0, 0, cos);
        out.set(0, 1, minus_sin);
        out.set(1, 0, sin);
        out.set(1, 1, cos);
        out
    }

    /// The shearing that moves x in proportion to y by `x_y` and to z by
    /// `x_z`, y in proportion to x by `y_x` and to z by `y_z`, and z in
    /// proportion to x by `z_x` and to y by `z_y`.
    pub fn shearing_of(zero: T, one: T, x_y: T, x_z: T, y_x: T, y_z: T, z_x: T, z_y: T) -> (m: Self)
        ensures
            m.spec_width() == 4,
            m.spec_height() == 4,
            m.wf(),
            m@ == with_entry(
                with_entry(
                    with_entry(
                        with_entry(
                            with_entry(with_entry(spec_identity(zero, one), 0, 1, x_y), 0, 2, x_z),
                            1,
                            0,
                            y_x,
                        ),
                        1,
                        2,
                        y_z,
                    ),
                    2,
                    0,
                    z_x,
                ),
                2,
                1,
                z_y,
            ),
    {
        let mut out = Self::identity_of(zero, one);
        out.set(0, 1, x_y);
        out.set(0, 2, x_z);
        out.set(1, 0, y_x);
        out.set(1, 2, y_z);
        out.set(2, 0, z_x);
        out.set(2, 1, z_y);
        out
    }
}

/// The identity matrix is its own transpose.
pub proof fn lemma_identity_transpose<T>(zero: T, one: T, identity: Matrix<T>, t: Matrix<T>)
    requires
        identity.wf(),
        t.wf(),
        identity.spec_width() == 4,
        identity.spec_height() == 4,
        identity@ == spec_identity(zero, one),
        super::is_transpose_of(t, identity),
    ensures
        t@ == identity@,
{
    assert forall|row: int, col: int| 0 <= row < 4 && 0 <= col < 4 implies #[trigger] identity.spec_at(
        row,
        col,
    ) == identity.spec_at(col, row) by {
        let i = cell_index(4, col, row);
        let j = cell_index(4, row, col);
        assert(i / 4 == row && i % 4 == col);
        assert(j / 4 == col && j % 4 == row);
    }
    super::lemma_transpose_symmetric(identity, t);
}

impl Default for Matrix<u64> {
    /// The identity matrix of four rows and columns.
    fn default() -> (m: Self)
        ensures
            m.spec_width() == 4,
            m.spec_height() == 4,
            m.wf(),
            m@ == spec_identity(ZERO, ONE),
    {
        Matrix::identity_of(ZERO, ONE)
    }
}

/// The entries of the translation by `(x, y, z)`.
pub open spec fn spec_translation(x: u64, y: u64, z: u64) -> Seq<u64> {
    with_entry(with_entry(with_entry(spec_identity(ZERO, ONE), 0, 3, x), 1, 3, y), 2, 3, z)
}

/// The entries of the scaling by `(x, y, z)`.
pub open spec fn spec_scaling(x: u64, y: u64, z: u64) -> Seq<u64> {
    with_entry(with_entry(with_entry(spec_identity(ZERO, ONE), 0, 0, x), 1, 1, y), 2, 2, z)
}

/// The entries of the rotation about the x axis with the given sine and
/// cosine.
pub open spec fn spec_rotation_x(sin: u64, cos: u64) -> Seq<u64> {
    with_entry(
        with_entry(
            with_entry(with_entry(spec_identity(ZERO, ONE), 1, 1, cos), 1, 2, spec_negate(sin)),
            2,
            1,
            sin,
        ),
        2,
        2,
        cos,
    )
}

/// The entries of the rotation about the y axis with the given sine and
/// cosine.
pub open spec fn spec_rotation_y(sin: u64, cos: u64) -> Seq<u64> {
    with_entry(
        with_entry(
            with_entry(with_entry(spec_identity(ZERO, ONE), 0, 0, cos), 0, 2, sin),
            2,
            0,
            spec_negate(sin),
        ),
        2,
        2,
        cos,
    )
}

/// The entries of the rotation about the z axis with the given sine and
/// cosine.
pub open spec fn spec_rotation_z(sin: u64, cos: u64) -> Seq<u64> {
    with_entry(
        with_entry(
            with_entry(with_entry(spec_identity(ZERO, ONE), 0, 0, cos), 0, 1, spec_negate(sin)),
            1,
            0,
            sin,
        ),
        1,
        1,
        cos,
    )
}

/// The entries of the shearing with the given proportions.
pub open spec fn spec_shearing(x_y: u64, x_z: u64, y_x: u64, y_z: u64, z_x: u64, z_y: u64) -> Seq<
    u64,
> {
    with_entry(
        with_entry(
            with_entry(
                with_entry(
                    with_entry(with_entry(spec_identity(ZERO, ONE), 0, 1, x_y), 0, 2, x_z),
                    1,
                    0,
                    y_x,
                ),
                1,
                2,
                y_z,
            ),
            2,
            0,
            z_x,
        ),
        2,
        1,
        z_y,
    )
}

impl Matrix<u64> {
    /// The matrix of the given size whose entries are the given whole
    /// numbers, row after row.
    pub fn new_with_datai<A: Arithmetic<u64>>(
        width: usize,
        height: usize,
        data: Vec<i32>,
        arith: &A,
    ) -> (m: Self)
        requires
            width * height == data.len(),
        ensures
            m.spec_width() == width,
            m.spec_height() == height,
            m.wf(),
            functional(arith) ==> m@ == Seq::new(data.len() as nat, |i: int| whole(arith, data[i])),
    {
        let mut entries: Vec<u64> = Vec::new();
        let mut i: usize = 0;
        while i < data.len()
            invariant
                i <= data.len(),
                entries.len() == i,
                functional(arith) ==> forall|j: int|
                    0 <= j < i ==> #[trigger] entries@[j] == whole(arith, data[j]),
            decreases data.len() - i,
        {
            entries.push(arith.number(data[i]));
            i += 1;
        }
        proof {
            if functional(arith) {
                assert(entries@ =~= Seq::new(data.len() as nat, |i: int| whole(arith, data[i])));
            }
        }
        Matrix::new_with_data(width, height, entries)
    }

    /// The identity matrix of four rows and columns.
    pub fn identity() -> (m: Self)
        ensures
            m.spec_width() == 4,
            m.spec_height() == 4,
            m.wf(),
            m@ == spec_identity(ZERO, ONE),
    {
        Matrix::identity_of(ZERO, ONE)
    }

    /// The translation by `(x, y, z)`.
    pub fn translation(x: u64, y: u64, z: u64) -> (m: Self)
        ensures
            m.spec_width() == 4,
            m.spec_height() == 4,
            m.wf(),
            m@ == spec_translation(x, y, z),
    {
        Matrix::translation_of(ZERO, ONE, x, y, z)
    }

    /// The translation by the whole numbers `(x, y, z)`.
    pub fn translationi<A: Arithmetic<u64>>(x: i32, y: i32, z: i32, arith: &A) -> (m: Self)
        ensures
            m.spec_width() == 4,
            m.spec_height() == 4,
            m.wf(),
            functional(arith) ==> m@ == spec_translation(
                whole(arith, x),
                whole(arith, y),
                whole(arith, z),
            ),
    {
        Self::translation(arith.number(x), arith.number(y), arith.number(z))
    }

    /// The scaling by `(x, y, z)`.
    pub fn scaling(x: u64, y: u64, z: u64) -> (m: Self)
        ensures
            m.spec_width() == 4,
            m.spec_height() == 4,
            m.wf(),
            m@ == spec_scaling(x, y, z),
    {
        Matrix::scaling_of(ZERO, ONE, x, y, z)
    }

    /// The scaling by the whole numbers `(x, y, z)`.
    pub fn scalingi<A: Arithmetic<u64>>(x: i32, y: i32, z: i32, arith: &A) -> (m: Self)
        ensures
            m.spec_width() == 4,
            m.spec_height() == 4,
            m.wf(),
            functional(arith) ==> m@ == spec_scaling(whole(arith, x), whole(arith, y), whole(arith, z)),
    {
        Self::scaling(arith.number(x), arith.number(y), arith.number(z))
    }

    /// The rotation about the x axis by `radians`.
    pub fn rotation_x<A: Arithmetic<u64>>(radians: u64, arith: &A) -> (m: Self)
        ensures
            m.spec_width() == 4,
            m.spec_height() == 4,
            m.wf(),
            functional(arith) ==> m@ == spec_rotation_x(sine(arith, radians), cosine(arith, radians)),
    {
        let sin = arith.sin(radians);
        let cos = arith.cos(radians);
        Matrix::rotation_x_of(ZERO, ONE, sin, cos, negate(sin))
    }

    /// The rotation about the y axis by `radians`.
    pub fn rotation_y<A: Arithmetic<u64>>(radians: u64, arith: &A) -> (m: Self)
        ensures
            m.spec_width() == 4,
            m.spec_height() == 4,
            m.wf(),
            functional(arith) ==> m@ == spec_rotation_y(sine(arith, radians), cosine(arith, radians)),
    {
        let sin = arith.sin(radians);
        let cos = arith.cos(radians);
        Matrix::rotation_y_of(ZERO, ONE, sin, cos, negate(sin))
    }

    /// The rotation about the z axis by `radians`.
    pub fn rotatation_z<A: Arithmetic<u64>>(radians: u64, arith: &A) -> (m: Self)
        ensures
            m.spec_width() == 4,
            m.spec_height() == 4,
            m.wf(),
            functional(arith) ==> m@ == spec_rotation_z(sine(arith, radians), cosine(arith, radians)),
    {
        let sin = arith.sin(radians);
        let cos = arith.cos(radians);
        Matrix::rotatation_z_of(ZERO, ONE, sin, cos, negate(sin))
    }

    /// The shearing with the given proportions.
    pub fn shearing(x_y: u64, x_z: u64, y_x: u64, y_z: u64, z_x: u64, z_y: u64) -> (m: Self)
        ensures
            m.spec_width() == 4,
            m.spec_height() == 4,
            m.wf(),
            m@ == spec_shearing(x_y, x_z, y_x, y_z, z_x, z_y),
    {
        Matrix::shearing_of(ZERO, ONE, x_y, x_z, y_x, y_z, z_x, z_y)
    }

    /// The shearing with the given whole proportions.
    pub fn shearingi<A: Arithmetic<u64>>(
        x_y: i32,
        x_z: i32,
        y_x: i32,
        y_z: i32,
        z_x: i32,
        z_y: i32,
        arith: &A,
    ) -> (m: Self)
        ensures
            m.spec_width() == 4,
            m.spec_height() == 4,
            m.wf(),
            functional(arith) ==> m@ == spec_shearing(
                whole(arith, x_y),
                whole(arith, x_z),
                whole(arith, y_x),
                whole(arith, y_z),
                whole(arith, z_x),
                whole(arith, z_y),
            ),
    {
        Self::shearing(
            arith.number(x_y),
            arith.number(x_z),
            arith.number(y_x),
            arith.number(y_z),
            arith.number(z_x),
            arith.number(z_y),
        )
    }

    /// This transform, then the translation by `(x, y, z)`: the
    /// translation is multiplied on from the left.
    pub fn translate<A: Arithmetic<u64>>(self, x: u64, y: u64, z: u64, arith: &A) -> (m: Self)
        requires
            self.spec_width() == 4,
            self.spec_height() == 4,
        ensures
            exists|t: Matrix<u64>|
                t@ == spec_translation(x, y, z) && t.spec_width() == 4 && t.spec_height() == 4
                    && #[trigger] product_with(arith, t, self, m),
    {
        let t = Self::translation(x, y, z);
        let m = t.mul(&self, arith);
        proof {
            assert(product_with(arith, t, self, m));
        }
        m
    }

    /// This transform, then the scaling by `(x, y, z)`.
    pub fn scale<A: Arithmetic<u64>>(self, x: u64, y: u64, z: u64, arith: &A) -> (m: Self)
        requires
            self.spec_width() == 4,
            self.spec_height() == 4,
        ensures
            exists|t: Matrix<u64>|
                t@ == spec_scaling(x, y, z) && t.spec_width() == 4 && t.spec_height() == 4
                    && #[trigger] product_with(arith, t, self, m),
    {
        let t = Self::scaling(x, y, z);
        let m = t.mul(&self, arith);
        proof {
            assert(product_with(arith, t, self, m));
        }
        m
    }

    /// This transform, then the rotation about the x axis by `radians`.
    pub fn rotate_x<A: Arithmetic<u64>>(self, radians: u64, arith: &A) -> (m: Self)
        requires
            self.spec_width() == 4,
            self.spec_height() == 4,
        ensures
            exists|t: Matrix<u64>|
                (functional(arith) ==> t@ == spec_rotation_x(
                    sine(arith, radians),
                    cosine(arith, radians),
                )) && t.spec_width() == 4 && t.spec_height() == 4 && #[trigger] product_with(
                    arith,
                    t,
                    self,
                    m,
                ),
    {
        let t = Self::rotation_x(radians, arith);
        let m = t.mul(&self, arith);
        proof {
            assert(product_with(arith, t, self, m));
        }
        m
    }

    /// This transform, then the rotation about the y axis by `radians`.
    pub fn rotate_y<A: Arithmetic<u64>>(self, radians: u64, arith: &A) -> (m: Self)
        requires
            self.spec_width() == 4,
            self.spec_height() == 4,
        ensures
            exists|t: Matrix<u64>|
                (functional(arith) ==> t@ == spec_rotation_y(
                    sine(arith, radians),
                    cosine(arith, radians),
                )) && t.spec_width() == 4 && t.spec_height() == 4 && #[trigger] product_with(
                    arith,
                    t,
                    self,
                    m,
                ),
    {
        let t = Self::rotation_y(radians, arith);
        let m = t.mul(&self, arith);
        proof {
            assert(product_with(arith, t, self, m));
        }
        m
    }

    /// This transform, then the rotation about the z axis by `radians`.
    pub fn rotate_z<A: Arithmetic<u64>>(self, radians: u64, arith: &A) -> (m: Self)
        requires
            self.spec_width() == 4,
            self.spec_height() == 4,
        ensures
            exists|t: Matrix<u64>|
                (functional(arith) ==> t@ == spec_rotation_z(
                    sine(arith, radians),
                    cosine(arith, radians),
                )) && t.spec_width() == 4 && t.spec_height() == 4 && #[trigger] product_with(
                    arith,
                    t,
                    self,
                    m,
                ),
    {
        let t = Self::rotatation_z(radians, arith);
        let m = t.mul(&self, arith);
        proof {
            assert(product_with(arith, t, self, m));
        }
        m
    }

    /// Whether two matrices are of one size and equal within the tolerance,
    /// entry by entry.
    pub fn eq<A: Arithmetic<u64>>(&self, other: &Self, arith: &A) -> (r: bool)
        ensures
            functional(arith) ==> r == (self.spec_width() == other.spec_width()
                && self.spec_height() == other.spec_height() && forall|i: int|
                0 <= i < self@.len() ==> spec_equal(arith, #[trigger] self@[i], other@[i])),
    {
        if self.width() != other.width() || self.height() != other.height() {
            return false;
        }
        proof {
            use_type_invariant(self);
            use_type_invariant(other);
        }
        let n = self.data.len();
        let mut i: usize = 0;
        while i < n
            invariant
                i <= n,
                n == self@.len(),
                n == other@.len(),
                functional(arith) ==> forall|j: int|
                    0 <= j < i ==> spec_equal(arith, #[trigger] self@[j], other@[j]),
            decreases n - i,
        {
            if !crate::math::float::equal(self[i], other[i], arith) {
                return false;
            }
            i += 1;
        }
        true
    }

    /// The transform that moves the world so that an eye at `from` looking
    /// towards `to`, with `up` upwards, sits at the origin looking down
    /// the negative z axis. There is none where the way from `from` to
    /// `to`, or `up`, is no vector.
    pub fn view_transform<A: Arithmetic<u64>>(
        from: Tuple<u64>,
        to: Tuple<u64>,
        up: Tuple<u64>,
        arith: &A,
    ) -> (m: Option<Self>)
        ensures
            m matches Some(v) ==> v.spec_width() == 4 && v.spec_height() == 4 && v.wf(),
            functional(arith) ==> {
                let forward = normalized(arith, tuple_difference(arith, to, from));
                let upward = normalized(arith, up);
                m is Some <==> crate::math::tuple::spec_is_vector(forward.w)
                    && crate::math::tuple::spec_is_vector(upward.w)
            },
            functional(arith) ==> (m matches Some(v) ==> is_view(arith, from, to, up, v)),
    {
        let forward = to.sub(&from, arith).normalize(arith);
        let upward = up.normalize(arith);
        if !(forward.is_vector() && upward.is_vector()) {
            return None;
        }
        let left = forward.cross(&upward, arith);
        let true_up = left.cross(&forward, arith);
        let mut data: Vec<u64> = Vec::new();
        data.push(left.x);
        data.push(left.y);
        data.push(left.z);
        data.push(ZERO);
        data.push(true_up.x);
        data.push(true_up.y);
        data.push(true_up.z);
        data.push(ZERO);
        data.push(negate(forward.x));
        data.push(negate(forward.y));
        data.push(negate(forward.z));
        data.push(ZERO);
        data.push(ZERO);
        data.push(ZERO);
        data.push(ZERO);
        data.push(ONE);
        proof {
            if functional(arith) {
                assert(data@ =~= spec_orientation(arith, from, to, up));
            }
        }
        let orientation = Matrix::new_with_data(4, 4, data);
        let t = Self::translation(negate(from.x), negate(from.y), negate(from.z));
        let v = orientation.mul(&t, arith);
        proof {
            assert(product_with(arith, orientation, t, v));
            if functional(arith) {
                assert(orientation@ == spec_orientation(arith, from, to, up));
                assert(is_view(arith, from, to, up, v));
            }
        }
        Some(v)
    }
}

/// Whether `v` can be the view transform of an eye at `from` that looks
/// towards `to`: the matrix that turns the world, times the translation
/// that moves the eye to the origin.
pub open spec fn is_view<A: Arithmetic<u64>>(
    arith: &A,
    from: Tuple<u64>,
    to: Tuple<u64>,
    up: Tuple<u64>,
    v: Matrix<u64>,
) -> bool {
    exists|orientation: Matrix<u64>, t: Matrix<u64>|
        {
            &&& orientation@ == spec_orientation(arith, from, to, up)
            &&& orientation.spec_width() == 4
            &&& orientation.spec_height() == 4
            &&& t@ == spec_translation(spec_negate(from.x), spec_negate(from.y), spec_negate(from.z))
            &&& t.spec_width() == 4
            &&& t.spec_height() == 4
            &&& #[trigger] product_with(arith, orientation, t, v)
        }
}

/// The entries of the matrix that turns the world so that the eye looks
/// down the negative z axis: its rows are the vector to the left of the
/// eye, the vector upwards, and the vector backwards.
pub open spec fn spec_orientation<A: Arithmetic<u64>>(
    arith: &A,
    from: Tuple<u64>,
    to: Tuple<u64>,
    up: Tuple<u64>,
) -> Seq<u64> {
    let forward = normalized(arith, tuple_difference(arith, to, from));
    let left = cross_product(arith, forward, normalized(arith, up));
    let true_up = cross_product(arith, left, forward);
    seq![
        left.x,
        left.y,
        left.z,
        ZERO,
        true_up.x,
        true_up.y,
        true_up.z,
        ZERO,
        spec_negate(forward.x),
        spec_negate(forward.y),
        spec_negate(forward.z),
        ZERO,
        ZERO,
        ZERO,
        ZERO,
        ONE,
    ]
}

} // verus!
