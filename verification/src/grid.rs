//! Dense two-dimensional storage, and the mathematical field it stands for.

use crate::scalar::{zero, zero_spec, Scalar};
use vstd::arithmetic::div_mod::{lemma_fundamental_div_mod, lemma_fundamental_div_mod_converse};
use vstd::prelude::*;

verus! {

/// A rectangle of values, row after row: the cell `(x, y)` is the entry
/// `y * width + x` of `cells`.
pub struct Field<T> {
    pub width: nat,
    pub height: nat,
    pub cells: Seq<T>,
}

impl<T> Field<T> {
    /// There is exactly one entry per cell.
    pub open spec fn wf(self) -> bool {
        self.cells.len() == self.width * self.height
    }

    /// Whether `(x, y)` is a cell of the field.
    pub open spec fn has(self, x: int, y: int) -> bool {
        0 <= x < self.width && 0 <= y < self.height
    }

    /// The value of the cell `(x, y)`.
    pub open spec fn at(self, x: int, y: int) -> T {
        self.cells[y * self.width + x]
    }

    /// The field with the cell `(x, y)` replaced by `value`.
    pub open spec fn put(self, x: int, y: int, value: T) -> Self {
        Field {
            width: self.width,
            height: self.height,
            cells: self.cells.update(y * self.width + x, value),
        }
    }

    /// The field whose cell `(x, y)` holds `f(x, y)`.
    pub open spec fn tabulate(width: nat, height: nat, f: spec_fn(int, int) -> T) -> Self {
        Field {
            width,
            height,
            cells: Seq::new(width * height, |k: int| f(k % (width as int), k / (width as int))),
        }
    }

    /// The field that holds `value` in every cell.
    pub open spec fn constant(width: nat, height: nat, value: T) -> Self {
        Self::tabulate(width, height, |x: int, y: int| value)
    }

    /// The field with `value` in every cell within `radius` of `(cx, cy)`,
    /// and the old value elsewhere.
    pub open spec fn stamped<R: Scalar>(self, cx: i32, cy: i32, radius: R, value: T) -> Self {
        Self::tabulate(
            self.width,
            self.height,
            |x: int, y: int|
                if in_disc(x as usize, y as usize, cx, cy, radius) {
                    value
                } else {
                    self.at(x, y)
                },
        )
    }
}

/// A cell's place in the row-major sequence lies inside it, and gives the
/// cell back.
pub proof fn lemma_cell_index(width: nat, height: nat, x: int, y: int)
    requires
        0 <= x < width,
        0 <= y < height,
    ensures
        0 <= y * width + x < width * height,
        (y * width + x) % (width as int) == x,
        (y * width + x) / (width as int) == y,
{
    assert(y * width + x < width * height) by (nonlinear_arith)
        requires
            0 <= x < width,
            0 <= y < height,
    ;
    assert(0 <= y * width) by (nonlinear_arith)
        requires
            0 <= y,
            0 <= width,
    ;
    lemma_fundamental_div_mod_converse(y * width + x, width as int, y, x);
}

/// Every place in the row-major sequence is the place of one cell.
pub proof fn lemma_cell_coords(width: nat, height: nat, k: int)
    requires
        0 <= k < width * height,
    ensures
        0 <= k % (width as int) < width,
        0 <= k / (width as int) < height,
        (k / (width as int)) * width + k % (width as int) == k,
{
    assert(width > 0) by (nonlinear_arith)
        requires
            0 <= k < width * height,
    ;
    lemma_fundamental_div_mod(k, width as int);
    let q = k / (width as int);
    let r = k % (width as int);
    assert(0 <= q < height) by (nonlinear_arith)
        requires
            k == width * q + r,
            0 <= r < width,
            0 <= k < width * height,
    ;
    assert(q * width == width * q) by (nonlinear_arith);
}

/// What `put` changes and what it leaves.
pub proof fn lemma_put<T>(field: Field<T>, x: int, y: int, value: T)
    requires
        field.wf(),
        field.has(x, y),
    ensures
        field.put(x, y, value).wf(),
        field.put(x, y, value).width == field.width,
        field.put(x, y, value).height == field.height,
        field.put(x, y, value).at(x, y) == value,
        forall|x2: int, y2: int|
            field.has(x2, y2) && !(x2 == x && y2 == y) ==> #[trigger] field.put(x, y, value).at(
                x2,
                y2,
            ) == field.at(x2, y2),
{
    lemma_cell_index(field.width, field.height, x, y);
    assert forall|x2: int, y2: int|
        field.has(x2, y2) && !(x2 == x && y2 == y) implies #[trigger] field.put(x, y, value).at(
        x2,
        y2,
    ) == field.at(x2, y2) by {
        lemma_cell_index(field.width, field.height, x2, y2);
    }
}

/// What stamping a disc changes and what it leaves.
pub proof fn lemma_stamped<T, R: Scalar>(field: Field<T>, cx: i32, cy: i32, radius: R, value: T)
    requires
        field.wf(),
    ensures
        field.stamped(cx, cy, radius, value).wf(),
        field.stamped(cx, cy, radius, value).width == field.width,
        field.stamped(cx, cy, radius, value).height == field.height,
        forall|x: int, y: int|
            field.has(x, y) ==> #[trigger] field.stamped(cx, cy, radius, value).at(x, y)
                == (if in_disc(x as usize, y as usize, cx, cy, radius) {
                value
            } else {
                field.at(x, y)
            }),
{
    assert forall|x: int, y: int| field.has(x, y) implies #[trigger] field.stamped(
        cx,
        cy,
        radius,
        value,
    ).at(x, y) == (if in_disc(x as usize, y as usize, cx, cy, radius) {
        value
    } else {
        field.at(x, y)
    }) by {
        lemma_cell_index(field.width, field.height, x, y);
    }
}

/// Two fields of one shape that agree cell by cell are the same field.
pub proof fn lemma_same<T>(a: Field<T>, b: Field<T>)
    requires
        a.wf(),
        b.wf(),
        a.width == b.width,
        a.height == b.height,
        forall|x: int, y: int| a.has(x, y) ==> a.at(x, y) == b.at(x, y),
    ensures
        a == b,
{
    assert forall|k: int| 0 <= k < a.cells.len() implies a.cells[k] == b.cells[k] by {
        lemma_cell_coords(a.width, a.height, k);
        let x = k % (a.width as int);
        let y = k / (a.width as int);
        assert(a.has(x, y));
        assert(a.at(x, y) == b.at(x, y));
    }
    assert(a.cells =~= b.cells);
}

/// Whether the cell `(x, y)` lies within `radius` of `(cx, cy)`: the squared
/// distance, computed in `R`, is at most the squared radius.
pub open spec fn in_disc<R: Scalar>(x: usize, y: usize, cx: i32, cy: i32, radius: R) -> bool {
    let dx = R::index_spec(x).minus_spec(R::ratio_spec(cx as i64, 1));
    let dy = R::index_spec(y).minus_spec(R::ratio_spec(cy as i64, 1));
    dx.times_spec(dx).plus_spec(dy.times_spec(dy)).le_spec(radius.times_spec(radius))
}

/// Tells whether the cell `(x, y)` lies within `radius` of `(cx, cy)`.
pub fn within_disc<R: Scalar>(x: usize, y: usize, cx: i32, cy: i32, radius: &R) -> (r: bool)
    ensures
        r == in_disc(x, y, cx, cy, *radius),
{
    let dx = R::index(x).minus(&R::ratio(cx as i64, 1));
    let dy = R::index(y).minus(&R::ratio(cy as i64, 1));
    dx.times(&dx).plus(&dy.times(&dy)).le(&radius.times(radius))
}

/// A dense rectangle of values with checked indexing.
pub struct Array2D<T> {
    width: usize,
    height: usize,
    data: Vec<T>,
}

impl<T> View for Array2D<T> {
    type V = Field<T>;

    closed spec fn view(&self) -> Field<T> {
        Field { width: self.width as nat, height: self.height as nat, cells: self.data@ }
    }
}

impl<T: Copy> Array2D<T> {
    /// The storage holds one value per cell.
    pub open spec fn wf(&self) -> bool {
        self@.wf()
    }

    /// A `width` by `height` array with `value` in every cell.
    pub fn fill(value: T, width: usize, height: usize) -> (r: Self)
        requires
            width * height <= usize::MAX,
        ensures
            r.wf(),
            r@ == Field::constant(width as nat, height as nat, value),
            r@.width == width,
            r@.height == height,
            forall|x: int, y: int| r@.has(x, y) ==> #[trigger] r@.at(x, y) == value,
    {
        let n: usize = width * height;
        let mut data: Vec<T> = Vec::new();
        let mut i: usize = 0;
        while i < n
            invariant
                i <= n,
                data@.len() == i,
                forall|k: int| 0 <= k < i ==> data@[k] == value,
            decreases n - i,
        {
            data.push(value);
            i += 1;
        }
        let r = Array2D { width, height, data };
        proof {
            assert(r@.cells =~= Field::constant(width as nat, height as nat, value).cells);
            assert forall|x: int, y: int| r@.has(x, y) implies #[trigger] r@.at(x, y) == value by {
                lemma_cell_index(width as nat, height as nat, x, y);
            }
        }
        r
    }

    /// The number of columns.
    pub fn width(&self) -> (r: usize)
        ensures
            r == self@.width,
    {
        self.width
    }

    /// The number of rows.
    pub fn height(&self) -> (r: usize)
        ensures
            r == self@.height,
    {
        self.height
    }

    /// The value of the cell `(x, y)`.
    pub fn get(&self, x: usize, y: usize) -> (r: T)
        requires
            self.wf(),
            self@.has(x as int, y as int),
        ensures
            r == self@.at(x as int, y as int),
    {
        let n: usize = self.data.len();
        proof {
            lemma_cell_index(self@.width, self@.height, x as int, y as int);
            assert(y * self.width + x < n);
        }
        self.data[y * self.width + x]
    }

    /// Replaces the value of the cell `(x, y)`.
    pub fn set(&mut self, x: usize, y: usize, value: T)
        requires
            old(self).wf(),
            old(self)@.has(x as int, y as int),
        ensures
            final(self).wf(),
            final(self)@ == old(self)@.put(x as int, y as int, value),
            final(self)@.width == old(self)@.width,
            final(self)@.height == old(self)@.height,
            final(self)@.at(x as int, y as int) == value,
            forall|x2: int, y2: int|
                old(self)@.has(x2, y2) && !(x2 == x && y2 == y) ==> #[trigger] final(self)@.at(
                    x2,
                    y2,
                ) == old(self)@.at(x2, y2),
    {
        let n: usize = self.data.len();
        proof {
            lemma_cell_index(self@.width, self@.height, x as int, y as int);
            assert(y * self.width + x < n);
            lemma_put(self@, x as int, y as int, value);
        }
        let i: usize = y * self.width + x;
        self.data[i] = value;
    }

    /// Sets every cell within `radius` of `(cx, cy)` to `value`. The centre
    /// may lie outside the array; only cells of the array change.
    pub fn fill_circle<R: Scalar>(&mut self, cx: i32, cy: i32, radius: R, value: T)
        requires
            old(self).wf(),
        ensures
            final(self).wf(),
            final(self)@ == old(self)@.stamped(cx, cy, radius, value),
            final(self)@.width == old(self)@.width,
            final(self)@.height == old(self)@.height,
            forall|x: int, y: int|
                old(self)@.has(x, y) ==> #[trigger] final(self)@.at(x, y) == (if in_disc(
                    x as usize,
                    y as usize,
                    cx,
                    cy,
                    radius,
                ) {
                    value
                } else {
                    old(self)@.at(x, y)
                }),
    {
        let ghost before = self@;
        let mut y: usize = 0;
        while y < self.height
            invariant
                self.wf(),
                self@.width == before.width,
                self@.height == before.height,
                y <= self.height,
                forall|x2: int, y2: int|
                    before.has(x2, y2) ==> #[trigger] self@.at(x2, y2) == (if y2 < y && in_disc(
                        x2 as usize,
                        y2 as usize,
                        cx,
                        cy,
                        radius,
                    ) {
                        value
                    } else {
                        before.at(x2, y2)
                    }),
            decreases self.height - y,
        {
            let mut x: usize = 0;
            while x < self.width
                invariant
                    self.wf(),
                    self@.width == before.width,
                    self@.height == before.height,
                    y < self.height,
                    x <= self.width,
                    forall|x2: int, y2: int|
                        before.has(x2, y2) ==> #[trigger] self@.at(x2, y2) == (if (y2 < y || (y2
                            == y && x2 < x)) && in_disc(x2 as usize, y2 as usize, cx, cy, radius) {
                            value
                        } else {
                            before.at(x2, y2)
                        }),
                decreases self.width - x,
            {
                if within_disc(x, y, cx, cy, &radius) {
                    self.set(x, y, value);
                }
                x += 1;
            }
            y += 1;
        }
        proof {
            lemma_stamped(before, cx, cy, radius, value);
            lemma_same(self@, before.stamped(cx, cy, radius, value));
        }
    }

    /// The cells as one sequence, row after row.
    pub fn data(&self) -> (r: &[T])
        ensures
            r@ == self@.cells,
    {
        self.data.as_slice()
    }
}

impl<T: Scalar> Array2D<T> {
    /// A `width` by `height` array of zeros.
    pub fn new(width: usize, height: usize) -> (r: Self)
        requires
            width * height <= usize::MAX,
        ensures
            r.wf(),
            r@ == Field::constant(width as nat, height as nat, zero_spec::<T>()),
            r@.width == width,
            r@.height == height,
            forall|x: int, y: int| r@.has(x, y) ==> #[trigger] r@.at(x, y) == zero_spec::<T>(),
    {
        Self::fill(zero::<T>(), width, height)
    }

    /// Sets every cell to zero.
    pub fn zero(&mut self)
        requires
            old(self).wf(),
        ensures
            final(self).wf(),
            final(self)@ == Field::constant(old(self)@.width, old(self)@.height, zero_spec::<T>()),
            final(self)@.width == old(self)@.width,
            final(self)@.height == old(self)@.height,
            forall|x: int, y: int|
                final(self)@.has(x, y) ==> #[trigger] final(self)@.at(x, y) == zero_spec::<T>(),
    {
        let z = zero::<T>();
        let n: usize = self.data.len();
        let mut i: usize = 0;
        while i < n
            invariant
                i <= n,
                n == self.data@.len(),
                self@.width == old(self)@.width,
                self@.height == old(self)@.height,
                z == zero_spec::<T>(),
                forall|k: int| 0 <= k < i ==> self.data@[k] == z,
            decreases n - i,
        {
            self.data[i] = z;
            i += 1;
        }
        proof {
            assert(self@.cells =~= Field::constant(
                old(self)@.width,
                old(self)@.height,
                zero_spec::<T>(),
            ).cells);
            assert forall|x: int, y: int| self@.has(x, y) implies #[trigger] self@.at(x, y)
                == zero_spec::<T>() by {
                lemma_cell_index(self@.width, self@.height, x, y);
            }
        }
    }
}

impl<T: Copy> Clone for Array2D<T> {
    /// A copy that shares nothing with `self`.
    fn clone(&self) -> (r: Self)
        ensures
            r@ == self@,
            self.wf() ==> r.wf(),
    {
        let n: usize = self.data.len();
        let mut data: Vec<T> = Vec::new();
        let mut i: usize = 0;
        while i < n
            invariant
                i <= n,
                n == self.data@.len(),
                data@.len() == i,
                forall|k: int| 0 <= k < i ==> data@[k] == self.data@[k],
            decreases n - i,
        {
            data.push(self.data[i]);
            i += 1;
        }
        proof {
            assert(data@ =~= self.data@);
        }
        Array2D { width: self.width, height: self.height, data }
    }
}

} // verus!
