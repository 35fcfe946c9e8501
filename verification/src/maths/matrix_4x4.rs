use vstd::prelude::*;
use crate::maths::scalar::{Scalar, MINUS_ONE_BITS, ONE_BITS, ZERO_BITS};
use crate::maths::vector3::Vector3;
use crate::traits::arithmetic::{adds, multiplies, Arithmetic};
use crate::traits::transformable::Transformable;

verus! {

/// Four rows of four numbers, row by row: a frame, with its axes in the
/// first three columns and its origin in the fourth.
#[derive(Debug, Clone, Copy)]
pub struct Matrix4x4 {
    values: [Scalar; 16],
}

impl View for Matrix4x4 {
    type V = Seq<Scalar>;

    /// The sixteen numbers, row by row.
    closed spec fn view(&self) -> Seq<Scalar> {
        self.values@
    }
}

/// The numbers of the matrix that leaves everything where it is.
pub open spec fn identity_values() -> Seq<Scalar> {
    let o = Scalar { bits: ZERO_BITS };
    let l = Scalar { bits: ONE_BITS };
    seq![l, o, o, o, o, l, o, o, o, o, l, o, o, o, o, l]
}

/// The numbers of the frame with the given axes and origin.
pub open spec fn frame_values(i: Vector3, j: Vector3, k: Vector3, origin: Vector3) -> Seq<Scalar> {
    let o = Scalar { bits: ZERO_BITS };
    let l = Scalar { bits: ONE_BITS };
    seq![i.0, j.0, k.0, origin.0, i.1, j.1, k.1, origin.1, i.2, j.2, k.2, origin.2, o, o, o, l]
}

/// `num` may compute `result` as
/// `a0 * b0 + a1 * b1 + a2 * b2 + a3 * b3`, added from the first to the last.
pub open spec fn combines<N: Arithmetic>(
    num: &N,
    a: (Scalar, Scalar, Scalar, Scalar),
    b: (Scalar, Scalar, Scalar, Scalar),
    result: Scalar,
) -> bool {
    exists|w: Scalar, x: Scalar, y: Scalar, z: Scalar, wx: Scalar, wxy: Scalar|
        {
            &&& multiplies(num, a.0, b.0, w)
            &&& multiplies(num, a.1, b.1, x)
            &&& multiplies(num, a.2, b.2, y)
            &&& multiplies(num, a.3, b.3, z)
            &&& #[trigger] adds(num, w, x, wx)
            &&& #[trigger] adds(num, wx, y, wxy)
            &&& #[trigger] adds(num, wxy, z, result)
        }
}

/// `a0 * b0 + a1 * b1 + a2 * b2 + a3 * b3`.
pub fn combine<N: Arithmetic>(
    num: &N,
    a: (Scalar, Scalar, Scalar, Scalar),
    b: (Scalar, Scalar, Scalar, Scalar),
) -> (result: Scalar)
    ensures
        combines(num, a, b, result),
{
    let w = num.product(a.0, b.0);
    let x = num.product(a.1, b.1);
    let y = num.product(a.2, b.2);
    let z = num.product(a.3, b.3);
    let wx = num.sum(w, x);
    let wxy = num.sum(wx, y);
    let result = num.sum(wxy, z);
    assert(adds(num, w, x, wx) && adds(num, wx, y, wxy) && adds(num, wxy, z, result));
    result
}

impl Matrix4x4 {
    /// There are sixteen numbers.
    pub proof fn lemma_sixteen(self)
        ensures
            self@.len() == 16,
    {
    }

    /// The number in a row and a column.
    pub open spec fn entry(self, row: int, column: int) -> Scalar {
        self@[row * 4 + column]
    }

    /// A row.
    pub open spec fn row(self, row: int) -> (Scalar, Scalar, Scalar, Scalar) {
        (self.entry(row, 0), self.entry(row, 1), self.entry(row, 2), self.entry(row, 3))
    }

    /// A column.
    pub open spec fn column(self, column: int) -> (Scalar, Scalar, Scalar, Scalar) {
        (self.entry(0, column), self.entry(1, column), self.entry(2, column), self.entry(3, column))
    }

    /// Number by number, `self == other` as IEEE-754 defines it.
    pub open spec fn same(self, other: Matrix4x4) -> bool {
        forall|k: int| 0 <= k < 16 ==> (#[trigger] self@[k]).same(other@[k])
    }

    /// `num` may compute `result` as `self + other`, number by number.
    pub open spec fn sums_to<N: Arithmetic>(self, other: Matrix4x4, num: &N, result: Matrix4x4) -> bool {
        forall|k: int| 0 <= k < 16 ==> adds(num, self@[k], other@[k], #[trigger] result@[k])
    }

    /// `num` may compute `result` as `self * factor`, number by number.
    pub open spec fn scales_to<N: Arithmetic>(self, factor: Scalar, num: &N, result: Matrix4x4) -> bool {
        forall|k: int| 0 <= k < 16 ==> multiplies(num, self@[k], factor, #[trigger] result@[k])
    }

    /// `num` may compute `result` as `self - other`: `self + other * -1`.
    pub open spec fn differs_to<N: Arithmetic>(self, other: Matrix4x4, num: &N, result: Matrix4x4) -> bool {
        exists|negated: Matrix4x4| #[trigger]
            other.scales_to(Scalar { bits: MINUS_ONE_BITS }, num, negated) && self.sums_to(
                negated,
                num,
                result,
            )
    }

    /// `num` may compute `value` as the sum of the first `count` products
    /// of a number of row `row` of `self` and one of column `column` of
    /// `other`, starting from zero.
    pub open spec fn folds<N: Arithmetic>(
        self,
        other: Matrix4x4,
        num: &N,
        row: int,
        column: int,
        count: int,
        value: Scalar,
    ) -> bool
        decreases count,
    {
        if count <= 0 {
            value == (Scalar { bits: ZERO_BITS })
        } else {
            exists|before: Scalar, term: Scalar|
                self.folds(other, num, row, column, count - 1, before) && multiplies(
                    num,
                    self.entry(row, count - 1),
                    other.entry(count - 1, column),
                    term,
                ) && #[trigger] adds(num, before, term, value)
        }
    }

    /// `num` may compute `result` as the matrix product `self * other`.
    pub open spec fn multiplies_to<N: Arithmetic>(
        self,
        other: Matrix4x4,
        num: &N,
        result: Matrix4x4,
    ) -> bool {
        forall|row: int, column: int|
            0 <= row < 4 && 0 <= column < 4 ==> self.folds(
                other,
                num,
                row,
                column,
                4,
                #[trigger] result.entry(row, column),
            )
    }

    pub fn new(values: [Scalar; 16]) -> (matrix: Matrix4x4)
        ensures
            matrix@ == values@,
    {
        Matrix4x4 { values }
    }

    /// The matrix that leaves everything where it is.
    pub fn identity() -> (matrix: Matrix4x4)
        ensures
            matrix@ == identity_values(),
    {
        let o = Scalar::zero();
        let l = Scalar::one();
        let matrix = Matrix4x4::new([l, o, o, o, o, l, o, o, o, o, l, o, o, o, o, l]);
        assert(matrix@ =~= identity_values());
        matrix
    }

    /// The number in row `index.0` and column `index.1`.
    pub fn index(&self, index: (usize, usize)) -> (value: Scalar)
        requires
            index.0 * 4 + index.1 < 16,
        ensures
            value == self.entry(index.0 as int, index.1 as int),
    {
        self.values[index.0 * 4 + index.1]
    }

    /// Writes the number in row `index.0` and column `index.1`.
    pub fn set(&mut self, index: (usize, usize), value: Scalar)
        requires
            index.0 * 4 + index.1 < 16,
        ensures
            final(self)@ == old(self)@.update(index.0 * 4 + index.1, value),
    {
        self.values[index.0 * 4 + index.1] = value;
    }

    pub fn equals(&self, other: &Matrix4x4) -> (equal: bool)
        ensures
            equal == self.same(*other),
    {
        let mut equal = true;
        let mut i: usize = 0;
        while i < 16
            invariant
                i <= 16,
                equal == forall|k: int| 0 <= k < i ==> (#[trigger] self@[k]).same(other@[k]),
            decreases 16 - i,
        {
            let ghost before = equal;
            equal = self.values[i].equals(other.values[i]) && equal;
            proof {
                if equal {
                    assert forall|k: int| 0 <= k < i + 1 implies (#[trigger] self@[k]).same(other@[k]) by {
                        if k < i {
                        }
                    }
                } else if before {
                    assert(!self@[i as int].same(other@[i as int]));
                } else {
                    let k = choose|k: int| 0 <= k < i && !(#[trigger] self@[k]).same(other@[k]);
                    assert(!self@[k].same(other@[k]));
                }
            }
            i = i + 1;
        }
        equal
    }

    /// `self + other`.
    pub fn plus<N: Arithmetic>(&self, other: &Matrix4x4, num: &N) -> (result: Matrix4x4)
        ensures
            self.sums_to(*other, num, result),
    {
        let mut values = [Scalar::zero();16];
        let mut i: usize = 0;
        while i < 16
            invariant
                i <= 16,
                forall|k: int| 0 <= k < i ==> adds(num, self@[k], other@[k], #[trigger] values@[k]),
            decreases 16 - i,
        {
            values[i] = num.sum(self.values[i], other.values[i]);
            i = i + 1;
        }
        Matrix4x4 { values }
    }

    /// `self * factor`.
    pub fn scale<N: Arithmetic>(&self, factor: Scalar, num: &N) -> (result: Matrix4x4)
        ensures
            self.scales_to(factor, num, result),
    {
        let mut values = [Scalar::zero();16];
        let mut i: usize = 0;
        while i < 16
            invariant
                i <= 16,
                forall|k: int| 0 <= k < i ==> multiplies(num, self@[k], factor, #[trigger] values@[k]),
            decreases 16 - i,
        {
            values[i] = num.product(self.values[i], factor);
            i = i + 1;
        }
        Matrix4x4 { values }
    }

    /// `self - other`.
    pub fn minus<N: Arithmetic>(&self, other: &Matrix4x4, num: &N) -> (result: Matrix4x4)
        ensures
            self.differs_to(*other, num, result),
    {
        let negated = other.scale(Scalar::from_bits(MINUS_ONE_BITS), num);
        self.plus(&negated, num)
    }

    /// The matrix product `self * other`.
    pub fn times<N: Arithmetic>(&self, other: &Matrix4x4, num: &N) -> (result: Matrix4x4)
        ensures
            self.multiplies_to(*other, num, result),
    {
        let mut values = [Scalar::zero();16];
        let mut i: usize = 0;
        while i < 4
            invariant
                i <= 4,
                forall|row: int, column: int|
                    0 <= row < i && 0 <= column < 4 ==> self.folds(
                        *other,
                        num,
                        row,
                        column,
                        4,
                        #[trigger] values@[row * 4 + column],
                    ),
            decreases 4 - i,
        {
            let mut j: usize = 0;
            while j < 4
                invariant
                    i < 4,
                    j <= 4,
                    forall|row: int, column: int|
                        0 <= row < i && 0 <= column < 4 ==> self.folds(
                            *other,
                            num,
                            row,
                            column,
                            4,
                            #[trigger] values@[row * 4 + column],
                        ),
                    forall|column: int|
                        0 <= column < j ==> self.folds(
                            *other,
                            num,
                            i as int,
                            column,
                            4,
                            #[trigger] values@[i * 4 + column],
                        ),
                decreases 4 - j,
            {
                let mut value = Scalar::zero();
                let mut k: usize = 0;
                while k < 4
                    invariant
                        i < 4,
                        j < 4,
                        k <= 4,
                        self.folds(*other, num, i as int, j as int, k as int, value),
                    decreases 4 - k,
                {
                    let term = num.product(self.index((i, k)), other.index((k, j)));
                    let ghost before = value;
                    value = num.sum(value, term);
                    assert(adds(num, before, term, value));
                    k = k + 1;
                }
                let ghost earlier = values@;
                values[i * 4 + j] = value;
                assert forall|row: int, column: int| 0 <= row < i && 0 <= column < 4 implies self.folds(
                    *other,
                    num,
                    row,
                    column,
                    4,
                    #[trigger] values@[row * 4 + column],
                ) by {
                    assert(values@[row * 4 + column] == earlier[row * 4 + column]);
                }
                assert forall|column: int| 0 <= column < j + 1 implies self.folds(
                    *other,
                    num,
                    i as int,
                    column,
                    4,
                    #[trigger] values@[i * 4 + column],
                ) by {
                    if column < j {
                        assert(values@[i * 4 + column] == earlier[i * 4 + column]);
                    }
                }
                j = j + 1;
            }
            i = i + 1;
        }
        Matrix4x4 { values }
    }

    /// The frame with the given axes, at the world's origin.
    pub fn from_basis(i: Vector3, j: Vector3, k: Vector3) -> (matrix: Matrix4x4)
        ensures
            matrix@ == frame_values(
                i,
                j,
                k,
                Vector3(Scalar { bits: ZERO_BITS }, Scalar { bits: ZERO_BITS }, Scalar { bits: ZERO_BITS }),
            ),
    {
        let o = Scalar::zero();
        let l = Scalar::one();
        let matrix = Matrix4x4::new([i.0, j.0, k.0, o, i.1, j.1, k.1, o, i.2, j.2, k.2, o, o, o, o, l]);
        assert(matrix@ =~= frame_values(i, j, k, Vector3(o, o, o)));
        matrix
    }

    /// What `create_frame_transform` may return: the frame at `origin`
    /// whose first axis is the normalised `i_basis`, whose third axis is
    /// the normalised cross product of the first axis and `j_basis`, and
    /// whose second axis is the cross product of the third and the first.
    pub open spec fn frames<N: Arithmetic>(
        origin: Vector3,
        i_basis: Vector3,
        j_basis: Vector3,
        num: &N,
        matrix: Matrix4x4,
    ) -> bool {
        exists|first: Vector3, across: Vector3, third: Vector3, second: Vector3|
            {
                &&& i_basis.normalises_to(num, first)
                &&& #[trigger] first.crosses_to(j_basis, num, across)
                &&& across.normalises_to(num, third)
                &&& #[trigger] third.crosses_to(first, num, second)
                &&& matrix@ == frame_values(first, second, third, origin)
            }
    }

    /// A frame of three axes of length 1 that stand at right angles, at
    /// `origin`; the direction of `i_basis` is kept.
    pub fn create_frame_transform<N: Arithmetic>(
        origin: Vector3,
        i_basis: Vector3,
        j_basis: Vector3,
        num: &N,
    ) -> (matrix: Matrix4x4)
        ensures
            Matrix4x4::frames(origin, i_basis, j_basis, num, matrix),
    {
        let ih = i_basis.normalise(num);
        let across = Vector3::cross(&ih, &j_basis, num);
        let kh = across.normalise(num);
        let jh = Vector3::cross(&kh, &ih, num);
        let o = Scalar::zero();
        let l = Scalar::one();
        let matrix = Matrix4x4::new(
            [ih.0, jh.0, kh.0, origin.0, ih.1, jh.1, kh.1, origin.1, ih.2, jh.2, kh.2, origin.2, o, o, o, l],
        );
        assert(matrix@ =~= frame_values(ih, jh, kh, origin));
        matrix
    }

    /// Applies the frame to `t`.
    pub fn transform<N: Arithmetic, T: Transformable<N>>(
        &self,
        t: &T,
        translate: bool,
        num: &N,
    ) -> (result: T)
        ensures
            call_ensures(T::transform, (t, self, translate, num), result),
    {
        t.transform(self, translate, num)
    }

    /// The axis that stands in for the second one while a frame is built
    /// round `i_basis`: up, or, where `i_basis` is up itself, left.
    pub open spec fn helper_axis(i_basis: Vector3) -> Vector3 {
        let o = Scalar { bits: ZERO_BITS };
        if i_basis.same(Vector3(o, Scalar { bits: ONE_BITS }, o)) {
            Vector3(Scalar { bits: MINUS_ONE_BITS }, o, o)
        } else {
            Vector3(o, Scalar { bits: ONE_BITS }, o)
        }
    }

    /// What `from_i_basis` may return: the frame at the world's origin
    /// whose first axis is `i_basis`, whose third axis is the normalised
    /// cross product of `i_basis` and the helper axis, and whose second
    /// axis is the cross product of the third axis and `i_basis`.
    pub open spec fn frames_round<N: Arithmetic>(i_basis: Vector3, num: &N, matrix: Matrix4x4) -> bool {
        exists|across: Vector3, third: Vector3, second: Vector3|
            {
                &&& #[trigger] i_basis.crosses_to(Matrix4x4::helper_axis(i_basis), num, across)
                &&& across.normalises_to(num, third)
                &&& #[trigger] third.crosses_to(i_basis, num, second)
                &&& matrix@ == frame_values(
                    i_basis,
                    second,
                    third,
                    Vector3(Scalar { bits: ZERO_BITS }, Scalar { bits: ZERO_BITS }, Scalar { bits: ZERO_BITS }),
                )
            }
    }

    /// A frame whose first axis is `i_basis`.
    pub fn from_i_basis<N: Arithmetic>(i_basis: Vector3, num: &N) -> (matrix: Matrix4x4)
        ensures
            Matrix4x4::frames_round(i_basis, num, matrix),
    {
        let o = Scalar::zero();
        let up = Vector3(o, Scalar::one(), o);
        let j_temp = if !i_basis.equals(&up) {
            up
        } else {
            Vector3(Scalar::from_bits(MINUS_ONE_BITS), o, o)
        };
        assert(j_temp == Matrix4x4::helper_axis(i_basis));
        let across = Vector3::cross(&i_basis, &j_temp, num);
        let k_basis = across.normalise(num);
        let j_basis = Vector3::cross(&k_basis, &i_basis, num);
        Matrix4x4::from_basis(i_basis, j_basis, k_basis)
    }
}

impl PartialEq for Matrix4x4 {
    /// Equality of the numbers.
    fn eq(&self, other: &Matrix4x4) -> (r: bool) {
        self.equals(other)
    }
}

impl vstd::std_specs::cmp::PartialEqSpecImpl for Matrix4x4 {
    open spec fn obeys_eq_spec() -> bool {
        true
    }

    open spec fn eq_spec(&self, other: &Matrix4x4) -> bool {
        self.same(*other)
    }
}

} // verus!
